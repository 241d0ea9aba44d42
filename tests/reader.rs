use std::io::{Cursor, Read, Seek, SeekFrom};

use plist::{Encoding, Error, Probe, ProbeAction, Reader};

fn run_probe<R: Read + Seek>(stream: &mut R) -> Result<[u8; 8], Error> {
    let mut probe = Probe::new();
    loop {
        match probe.action() {
            ProbeAction::SeekStart => {
                let r = stream
                    .seek(SeekFrom::Start(0))
                    .map(|_| ())
                    .map_err(|e| Error::Io(e.to_string()));
                probe.sought(r);
            }
            ProbeAction::ReadMagic => {
                let mut magic = [0u8; 8];
                let r = match stream.read_exact(&mut magic) {
                    Ok(()) => Ok(magic),
                    Err(ref e) if e.kind() == std::io::ErrorKind::UnexpectedEof => {
                        Err(Error::UnexpectedEof)
                    }
                    Err(e) => Err(Error::Io(e.to_string())),
                };
                probe.read(r);
            }
            ProbeAction::Finish => return probe.finish(),
        }
    }
}

fn dispatch(bytes: &[u8]) -> (Reader<Cursor<Vec<u8>>>, Result<Encoding, Error>) {
    let mut reader = Reader::new(Cursor::new(bytes.to_vec()));
    let mut stream = reader.take_stream().unwrap();
    let probe = run_probe(&mut stream);
    let r = reader.bind(stream, probe);
    (reader, r)
}

#[test]
fn binary_signature_is_recognised() {
    assert!(Reader::<()>::is_binary(b"bplist00"));
    assert!(!Reader::<()>::is_binary(b"bplist01"));
    assert!(!Reader::<()>::is_binary(b"<?xml ve"));
    assert!(!Reader::<()>::is_binary(b"bplist0"));
    assert!(!Reader::<()>::is_binary(b""));
}

#[test]
fn new_reader_is_unbound() {
    let reader = Reader::new(7u32);
    assert_eq!(reader.encoding(), None);
    assert_eq!(reader.into_stream(), Some(7));
}

#[test]
fn binary_stream_binds_binary_at_start() {
    let (reader, r) = dispatch(b"bplist00\x00\x01rest");
    assert_eq!(r, Ok(Encoding::Binary));
    assert_eq!(reader.encoding(), Some(Encoding::Binary));
    let stream = reader.into_stream().unwrap();
    assert_eq!(stream.position(), 0);
}

#[test]
fn other_stream_binds_xml_at_start() {
    let (reader, r) = dispatch(b"<?xml version=\"1.0\"?><plist/>");
    assert_eq!(r, Ok(Encoding::Xml));
    assert_eq!(reader.encoding(), Some(Encoding::Xml));
    assert_eq!(reader.into_stream().unwrap().position(), 0);
}

#[test]
fn short_stream_is_a_probe_error() {
    let (mut reader, r) = dispatch(b"bplist");
    assert_eq!(r, Err(Error::UnexpectedEof));
    assert_eq!(reader.encoding(), None);
    assert!(reader.take_stream().is_some());
}

#[test]
fn bound_reader_keeps_its_stream() {
    let mut reader = Reader::new(1u8);
    let stream = reader.take_stream().unwrap();
    assert_eq!(reader.bind(stream, Ok(*b"bplist00")), Ok(Encoding::Binary));
    assert_eq!(reader.take_stream(), None);
    assert_eq!(reader.encoding(), Some(Encoding::Binary));
}

#[test]
fn failed_probe_restores_the_stream() {
    let mut reader = Reader::new(3u8);
    let stream = reader.take_stream().unwrap();
    assert_eq!(reader.take_stream(), None);
    let r = reader.bind(stream, Err(Error::Io("seek failed".to_string())));
    assert_eq!(r, Err(Error::Io("seek failed".to_string())));
    assert_eq!(reader.encoding(), None);
    assert_eq!(reader.take_stream(), Some(3));
}

#[test]
fn probe_runs_seek_read_seek() {
    let mut probe = Probe::new();
    assert_eq!(probe.action(), ProbeAction::SeekStart);
    probe.sought(Ok(()));
    assert_eq!(probe.action(), ProbeAction::ReadMagic);
    probe.read(Ok(*b"abcdefgh"));
    assert_eq!(probe.action(), ProbeAction::SeekStart);
    probe.sought(Ok(()));
    assert_eq!(probe.action(), ProbeAction::Finish);
    assert_eq!(probe.finish(), Ok(*b"abcdefgh"));
}

#[test]
fn probe_stops_at_first_failure() {
    let mut probe = Probe::new();
    probe.sought(Ok(()));
    probe.read(Err(Error::UnexpectedEof));
    assert_eq!(probe.action(), ProbeAction::Finish);
    assert_eq!(probe.finish(), Err(Error::UnexpectedEof));

    let mut probe = Probe::new();
    probe.sought(Err(Error::Io("no seek".to_string())));
    assert_eq!(probe.action(), ProbeAction::Finish);
    assert_eq!(probe.finish(), Err(Error::Io("no seek".to_string())));
}
