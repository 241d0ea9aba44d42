//! Selecting the decoder for an encoded stream.
//!
//! A [`Reader`] holds a stream until its first event is asked for. Then its
//! driver runs a [`Probe`]: seek to the start, read the first eight bytes,
//! seek to the start again. The bytes read decide the encoding, which the
//! reader keeps from then on, and the stream goes to that encoding's decoder
//! positioned at its start.
use vstd::prelude::*;
use crate::event::Error;

verus! {

/// The encodings that a reader can bind to.
#[derive(Clone, Copy, Debug, PartialEq, Eq, Structural)]
pub enum Encoding {
    Binary,
    Xml,
}

/// The signature at offset 0 of a binary property list: ASCII `bplist00`.
pub open spec fn binary_signature() -> Seq<u8> {
    seq![0x62u8, 0x70u8, 0x6cu8, 0x69u8, 0x73u8, 0x74u8, 0x30u8, 0x30u8]
}

/// The encoding of a stream whose first bytes are `magic`: binary exactly
/// when they are the binary signature, markup otherwise.
pub open spec fn classify(magic: Seq<u8>) -> Encoding {
    if magic == binary_signature() {
        Encoding::Binary
    } else {
        Encoding::Xml
    }
}

enum ReaderInner<R> {
    Uninitialized(Option<R>),
    Xml(R),
    Binary(R),
}

/// A property-list reader that selects its encoding on first use.
pub struct Reader<R>(ReaderInner<R>);

impl<R> Reader<R> {
    /// The encoding this reader is bound to, if any.
    pub closed spec fn bound(&self) -> Option<Encoding> {
        match self.0 {
            ReaderInner::Uninitialized(_) => None,
            ReaderInner::Xml(_) => Some(Encoding::Xml),
            ReaderInner::Binary(_) => Some(Encoding::Binary),
        }
    }

    /// The stream this reader holds, if any.
    pub closed spec fn held(&self) -> Option<R> {
        match self.0 {
            ReaderInner::Uninitialized(s) => s,
            ReaderInner::Xml(s) => Some(s),
            ReaderInner::Binary(s) => Some(s),
        }
    }

    /// An unbound reader over `reader`.
    pub fn new(reader: R) -> (r: Reader<R>)
        ensures
            r.bound() == None::<Encoding>,
            r.held() == Some(reader),
    {
        Reader(ReaderInner::Uninitialized(Some(reader)))
    }

    /// Whether `magic`, the first bytes of a stream, is the binary signature.
    pub fn is_binary(magic: &[u8]) -> (r: bool)
        ensures
            r == (magic@ == binary_signature()),
    {
        let sig: [u8; 8] = [0x62u8, 0x70u8, 0x6cu8, 0x69u8, 0x73u8, 0x74u8, 0x30u8, 0x30u8];
        assert(sig@ == binary_signature());
        if magic.len() != 8 {
            return false;
        }
        let mut i: usize = 0;
        while i < 8
            invariant
                magic@.len() == 8,
                sig@ == binary_signature(),
                i <= 8,
                forall|j: int| 0 <= j < i ==> magic@[j] == sig@[j],
            decreases 8 - i,
        {
            if magic[i] != sig[i] {
                return false;
            }
            i = i + 1;
        }
        assert(magic@ =~= binary_signature());
        true
    }

    /// The encoding this reader is bound to; `None` while it still waits for
    /// its probe, which its driver runs before serving the first event.
    pub fn encoding(&self) -> (r: Option<Encoding>)
        ensures
            r == self.bound(),
    {
        match self.0 {
            ReaderInner::Uninitialized(_) => None,
            ReaderInner::Xml(_) => Some(Encoding::Xml),
            ReaderInner::Binary(_) => Some(Encoding::Binary),
        }
    }

    /// Takes the stream out of an unbound reader, for the probe.
    ///
    /// A bound reader keeps its stream and gives `None`.
    pub fn take_stream(&mut self) -> (r: Option<R>)
        ensures
            final(self).bound() == old(self).bound(),
            old(self).bound() is None ==> r == old(self).held() && final(self).held() is None,
            old(self).bound() is Some ==> r is None && final(self).held() == old(self).held(),
    {
        match &mut self.0 {
            ReaderInner::Uninitialized(s) => s.take(),
            _ => None,
        }
    }

    /// Ends the probe of an unbound reader whose stream was taken.
    ///
    /// With the first bytes of the stream, the reader binds to their
    /// encoding and keeps `stream` for its decoder. With the probe's error,
    /// it stays unbound, holds `stream` again, and hands the error back.
    pub fn bind(&mut self, stream: R, probe: Result<[u8; 8], Error>) -> (r: Result<
        Encoding,
        Error,
    >)
        requires
            old(self).bound() is None,
            old(self).held() is None,
        ensures
            final(self).held() == Some(stream),
            probe is Ok ==> r == Ok::<Encoding, Error>(classify(probe->Ok_0@))
                && final(self).bound() == Some(classify(probe->Ok_0@)),
            probe is Err ==> r == Err::<Encoding, Error>(probe->Err_0)
                && final(self).bound() is None,
    {
        match probe {
            Ok(magic) => {
                if Reader::<R>::is_binary(&magic) {
                    self.0 = ReaderInner::Binary(stream);
                    Ok(Encoding::Binary)
                } else {
                    self.0 = ReaderInner::Xml(stream);
                    Ok(Encoding::Xml)
                }
            },
            Err(e) => {
                self.0 = ReaderInner::Uninitialized(Some(stream));
                Err(e)
            },
        }
    }

    /// The stream, for the decoder of the bound encoding.
    pub fn into_stream(self) -> (r: Option<R>)
        ensures
            r == self.held(),
    {
        match self.0 {
            ReaderInner::Uninitialized(s) => s,
            ReaderInner::Xml(s) => Some(s),
            ReaderInner::Binary(s) => Some(s),
        }
    }
}

/// What a probe asks its driver to do next.
#[derive(Clone, Copy, Debug, PartialEq, Eq, Structural)]
pub enum ProbeAction {
    /// Seek the stream to absolute offset 0, then call [`Probe::sought`].
    SeekStart,
    /// Read exactly eight bytes, then call [`Probe::read`].
    ReadMagic,
    /// Nothing more: take the result with [`Probe::finish`].
    Finish,
}

/// The probe that classifies a stream: seek to the start, read eight bytes,
/// seek to the start again.
///
/// Its driver performs each action on the stream and reports how it went.
/// The first failure ends the probe with that error.
pub enum Probe {
    /// Waiting for the first seek to the start.
    Rewind,
    /// At the start, waiting for the eight bytes.
    ReadMagic,
    /// The bytes are read; waiting for the seek back to the start.
    RewindAgain([u8; 8]),
    /// Over, with the first eight bytes, and the stream at its start.
    Done([u8; 8]),
    /// Over, with the error of the action that failed.
    Failed(Error),
}

impl Probe {
    /// The stream's offset as the actions that succeeded leave it; `None`
    /// where no successful seek fixed it, or after a failure.
    pub open spec fn position(&self) -> Option<int> {
        match *self {
            Probe::Rewind => None,
            Probe::ReadMagic => Some(0),
            Probe::RewindAgain(_) => Some(8),
            Probe::Done(_) => Some(0),
            Probe::Failed(_) => None,
        }
    }

    /// What the probe asks for in this state.
    pub open spec fn next_action(&self) -> ProbeAction {
        match *self {
            Probe::Rewind => ProbeAction::SeekStart,
            Probe::ReadMagic => ProbeAction::ReadMagic,
            Probe::RewindAgain(_) => ProbeAction::SeekStart,
            Probe::Done(_) => ProbeAction::Finish,
            Probe::Failed(_) => ProbeAction::Finish,
        }
    }

    /// A probe that has done nothing yet.
    pub fn new() -> (r: Probe)
        ensures
            r == Probe::Rewind,
    {
        Probe::Rewind
    }

    /// What the driver must do next.
    pub fn action(&self) -> (r: ProbeAction)
        ensures
            r == self.next_action(),
    {
        match self {
            Probe::Rewind => ProbeAction::SeekStart,
            Probe::ReadMagic => ProbeAction::ReadMagic,
            Probe::RewindAgain(_) => ProbeAction::SeekStart,
            Probe::Done(_) => ProbeAction::Finish,
            Probe::Failed(_) => ProbeAction::Finish,
        }
    }

    /// Reports the outcome of a seek to the start.
    pub fn sought(&mut self, result: Result<(), Error>)
        requires
            old(self).next_action() == ProbeAction::SeekStart,
        ensures
            result is Err ==> *final(self) == Probe::Failed(result->Err_0),
            result is Ok && *old(self) is Rewind ==> *final(self) == Probe::ReadMagic,
            result is Ok && *old(self) is RewindAgain ==> *final(self) == Probe::Done(
                old(self)->RewindAgain_0,
            ),
            result is Ok ==> final(self).position() == Some(0int),
    {
        match result {
            Ok(()) => {
                match self {
                    Probe::RewindAgain(magic) => {
                        *self = Probe::Done(*magic);
                    },
                    _ => {
                        *self = Probe::ReadMagic;
                    },
                }
            },
            Err(e) => {
                *self = Probe::Failed(e);
            },
        }
    }

    /// Reports the outcome of reading the first eight bytes.
    pub fn read(&mut self, result: Result<[u8; 8], Error>)
        requires
            old(self).next_action() == ProbeAction::ReadMagic,
        ensures
            result is Ok ==> *final(self) == Probe::RewindAgain(result->Ok_0),
            result is Ok ==> final(self).position() == Some(old(self).position().unwrap() + 8),
            result is Err ==> *final(self) == Probe::Failed(result->Err_0),
    {
        match result {
            Ok(magic) => {
                *self = Probe::RewindAgain(magic);
            },
            Err(e) => {
                *self = Probe::Failed(e);
            },
        }
    }

    /// The first eight bytes of the stream, or the error that ended the
    /// probe.
    pub fn finish(self) -> (r: Result<[u8; 8], Error>)
        requires
            self.next_action() == ProbeAction::Finish,
        ensures
            self is Done ==> r == Ok::<[u8; 8], Error>(self->Done_0),
            self is Failed ==> r == Err::<[u8; 8], Error>(self->Failed_0),
    {
        match self {
            Probe::Done(magic) => Ok(magic),
            Probe::Failed(e) => Err(e),
            // The precondition leaves only the two finished states.
            _ => Err(Error::InvalidData),
        }
    }
}

/// A probe that ended without a failure has left the stream at offset 0,
/// after a successful seek there: the decoder that gets the stream starts
/// at its start, whichever encoding was chosen.
pub proof fn lemma_probe_ends_at_start(p: Probe)
    requires
        p.next_action() == ProbeAction::Finish,
        !(p is Failed),
    ensures
        p is Done,
        p.position() == Some(0int),
{
}

} // verus!
