use artifact_reader::path::extension;
use artifact_reader::{Document, Documents, Error, FormatParser, Parser, Reader, Unknown};

/// A stand-in for an evtx parser: a path that names "broken" fails to open,
/// one that names "damaged" opens with three records, the second of them
/// damaged, and any other opens with three sound records.
struct FakeEvtx {
    records: Vec<Result<u32, String>>,
}

impl FormatParser for FakeEvtx {
    type Record = u32;

    fn load(path: &str) -> Result<Self, String> {
        if path.contains("broken") {
            Err(format!("bad header in {}", path))
        } else if path.contains("damaged") {
            Ok(FakeEvtx { records: vec![Ok(3), Err("bad chunk".to_string()), Ok(1)] })
        } else {
            Ok(FakeEvtx { records: vec![Ok(3), Ok(2), Ok(1)] })
        }
    }

    fn next_record(&mut self) -> Option<Result<u32, String>> {
        if self.records.is_empty() {
            None
        } else {
            Some(self.records.remove(0))
        }
    }
}

fn drain(reader: &mut Reader<FakeEvtx>) -> Vec<Result<Document<u32>, Error>> {
    let mut docs = reader.documents();
    let mut out = Vec::new();
    while let Some(item) = docs.next() {
        out.push(item);
    }
    out
}

fn is_unknown(reader: &Reader<FakeEvtx>) -> bool {
    matches!(reader.parser(), Parser::Unknown)
}

fn is_evtx(reader: &Reader<FakeEvtx>) -> bool {
    matches!(reader.parser(), Parser::Evtx(_))
}

#[test]
fn evtx_file_yields_its_records() {
    let mut warnings = Vec::new();
    let mut reader = Reader::<FakeEvtx>::load("evidence.evtx", false, false, &mut warnings).unwrap();
    assert!(is_evtx(&reader));
    let docs = drain(&mut reader);
    assert_eq!(docs.len(), 3);
    assert!(matches!(docs[0], Ok(Document::Evtx(3))));
    assert!(matches!(docs[1], Ok(Document::Evtx(2))));
    assert!(matches!(docs[2], Ok(Document::Evtx(1))));
    assert!(warnings.is_empty());
}

#[test]
fn record_error_does_not_end_the_stream() {
    let mut warnings = Vec::new();
    let mut reader = Reader::<FakeEvtx>::load("damaged.evtx", false, false, &mut warnings).unwrap();
    assert!(is_evtx(&reader));
    let docs = drain(&mut reader);
    assert_eq!(docs.len(), 3);
    assert!(matches!(docs[0], Ok(Document::Evtx(3))));
    assert!(matches!(&docs[1], Err(Error::Format(m)) if m == "bad chunk"));
    assert!(matches!(docs[2], Ok(Document::Evtx(1))));
    assert!(warnings.is_empty());
}

#[test]
fn evtx_file_gets_evtx_parser_under_every_flag() {
    for (load_unknown, skip_errors) in [(false, false), (false, true), (true, false), (true, true)] {
        let mut warnings = Vec::new();
        let reader = Reader::<FakeEvtx>::load("logs/evidence.evtx", load_unknown, skip_errors, &mut warnings).unwrap();
        assert!(is_evtx(&reader));
        assert!(warnings.is_empty());
    }
}

#[test]
fn evtx_open_error_propagates() {
    for (load_unknown, skip_errors) in [(false, false), (false, true), (true, false), (true, true)] {
        let mut warnings = Vec::new();
        let r = Reader::<FakeEvtx>::load("broken.evtx", load_unknown, skip_errors, &mut warnings);
        assert_eq!(r.err(), Some(Error::Format("bad header in broken.evtx".to_string())));
        assert!(warnings.is_empty());
    }
}

#[test]
fn unknown_extension_is_skipped_silently() {
    for skip_errors in [false, true] {
        let mut warnings = Vec::new();
        let mut reader = Reader::<FakeEvtx>::load("notes.txt", false, skip_errors, &mut warnings).unwrap();
        assert!(is_unknown(&reader));
        assert!(drain(&mut reader).is_empty());
        assert!(warnings.is_empty());
    }
}

#[test]
fn unknown_extension_strict_fails() {
    let mut warnings = Vec::new();
    let r = Reader::<FakeEvtx>::load("notes.txt", true, false, &mut warnings);
    assert_eq!(r.err(), Some(Error::UnsupportedFormat("txt".to_string())));
    assert!(warnings.is_empty());
}

#[test]
fn unknown_extension_best_effort_warns() {
    let mut warnings = Vec::new();
    let mut reader = Reader::<FakeEvtx>::load("notes.txt", true, true, &mut warnings).unwrap();
    assert!(is_unknown(&reader));
    assert!(drain(&mut reader).is_empty());
    assert_eq!(warnings, vec!["file type is not currently supported - txt".to_string()]);
    assert!(warnings[0].contains("txt"));
}

#[test]
fn extensionless_file_is_skipped_by_default() {
    for skip_errors in [false, true] {
        let mut warnings = Vec::new();
        let mut reader = Reader::<FakeEvtx>::load("logs/Security", false, skip_errors, &mut warnings).unwrap();
        assert!(is_unknown(&reader));
        assert!(drain(&mut reader).is_empty());
        assert!(warnings.is_empty());
    }
}

#[test]
fn extensionless_file_is_sniffed() {
    let mut warnings = Vec::new();
    let mut reader = Reader::<FakeEvtx>::load("logs/Security", true, false, &mut warnings).unwrap();
    assert!(is_evtx(&reader));
    assert_eq!(drain(&mut reader).len(), 3);
    assert!(warnings.is_empty());
}

#[test]
fn extensionless_file_not_recognised_warns() {
    let mut warnings = Vec::new();
    let mut reader = Reader::<FakeEvtx>::load("logs/broken", true, true, &mut warnings).unwrap();
    assert!(is_unknown(&reader));
    assert!(drain(&mut reader).is_empty());
    assert_eq!(warnings, vec!["file type is not known".to_string()]);
}

#[test]
fn extensionless_file_not_recognised_strict_fails() {
    let mut warnings = Vec::new();
    let r = Reader::<FakeEvtx>::load("logs/broken", true, false, &mut warnings);
    assert_eq!(r.err(), Some(Error::UnknownFormat));
    assert!(warnings.is_empty());
}

#[test]
fn dotfile_has_no_extension() {
    let mut warnings = Vec::new();
    let r = Reader::<FakeEvtx>::load("home/.broken", true, false, &mut warnings);
    assert_eq!(r.err(), Some(Error::UnknownFormat));
}

#[test]
fn unknown_reader_stays_empty_on_every_call() {
    let mut warnings = Vec::new();
    let mut reader = Reader::<FakeEvtx>::load("notes.txt", false, false, &mut warnings).unwrap();
    for _ in 0..4 {
        let mut docs = reader.documents();
        assert!(docs.next().is_none());
        assert!(docs.next().is_none());
    }
    assert!(is_unknown(&reader));
}

#[test]
fn second_stream_continues_where_the_first_stopped() {
    let mut warnings = Vec::new();
    let mut reader = Reader::<FakeEvtx>::load("evidence.evtx", false, false, &mut warnings).unwrap();
    {
        let mut docs = reader.documents();
        assert!(matches!(docs.next(), Some(Ok(Document::Evtx(3)))));
    }
    let rest = drain(&mut reader);
    assert_eq!(rest.len(), 2);
    assert!(matches!(rest[1], Ok(Document::Evtx(1))));
}

#[test]
fn from_loaded_maps_both_outcomes() {
    let ok = Reader::<FakeEvtx>::from_loaded(FakeEvtx::load("a.evtx")).unwrap();
    assert!(is_evtx(&ok));
    let err = Reader::<FakeEvtx>::from_loaded(Err("nope".to_string()));
    assert_eq!(err.err(), Some(Error::Format("nope".to_string())));
}

#[test]
fn after_sniff_covers_each_case() {
    let mut warnings = Vec::new();
    let found = Reader::<FakeEvtx>::after_sniff(FakeEvtx::load("x").ok(), false, &mut warnings).unwrap();
    assert!(is_evtx(&found));
    assert!(warnings.is_empty());
    let skipped = Reader::<FakeEvtx>::after_sniff(None, true, &mut warnings).unwrap();
    assert!(is_unknown(&skipped));
    assert_eq!(warnings, vec!["file type is not known".to_string()]);
    let failed = Reader::<FakeEvtx>::after_sniff(None, false, &mut warnings);
    assert_eq!(failed.err(), Some(Error::UnknownFormat));
    assert_eq!(warnings.len(), 1);
}

#[test]
fn wrap_tags_records_and_errors() {
    assert!(matches!(Documents::<FakeEvtx>::wrap(Some(Ok(7))), Some(Ok(Document::Evtx(7)))));
    assert!(matches!(
        Documents::<FakeEvtx>::wrap(Some(Err("x".to_string()))),
        Some(Err(Error::Format(m))) if m == "x"
    ));
    assert!(Documents::<FakeEvtx>::wrap(None).is_none());
}

#[test]
fn unknown_producer_is_empty() {
    let mut u = Unknown;
    assert!(u.next::<u32>().is_none());
    assert!(u.next::<u32>().is_none());
}

#[test]
fn extension_follows_the_last_dot_of_the_name() {
    assert_eq!(extension("notes.txt"), Some("txt".to_string()));
    assert_eq!(extension("/logs/sub/b.evtx"), Some("evtx".to_string()));
    assert_eq!(extension("archive.tar.gz"), Some("gz".to_string()));
    assert_eq!(extension("odd."), Some("".to_string()));
    assert_eq!(extension("Security"), None);
    assert_eq!(extension(".bashrc"), None);
    assert_eq!(extension("home/.bashrc"), None);
    assert_eq!(extension("dir.d/file"), None);
    assert_eq!(extension("EVTX.Evtx"), Some("Evtx".to_string()));
}

#[test]
fn extension_match_is_case_sensitive() {
    let mut warnings = Vec::new();
    let r = Reader::<FakeEvtx>::load("upper.EVTX", true, false, &mut warnings);
    assert_eq!(r.err(), Some(Error::UnsupportedFormat("EVTX".to_string())));
}
