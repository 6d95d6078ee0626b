use vstd::prelude::*;
use vstd::string::*;

use crate::error::Error;
use crate::path::{extension, extension_of};

verus! {

/// What a format handler offers: it opens a file, then hands out the file's
/// records one at a time until it has none left.
pub trait FormatParser: Sized {
    type Record;

    /// Opens the file at `path`, or says why it is not of this format.
    fn load(path: &str) -> Result<Self, String>;

    /// The next record of the file, `None` once there are no more.
    fn next_record(&mut self) -> Option<Result<Self::Record, String>>;
}

/// One record of an artifact, tagged with its format.
pub enum Document<R> {
    Evtx(R),
}

/// The parser that a reader holds: a format's own, or none at all.
pub enum Parser<P> {
    Evtx(P),
    Unknown,
}

/// The producer of a file that no format handles: it has no records.
pub struct Unknown;

impl Unknown {
    /// Always `None`: there is nothing to read.
    pub fn next<R>(&mut self) -> (r: Option<Result<Document<R>, Error>>)
        ensures
            r is None,
    {
        None
    }
}

/// The extension that the evtx format is known by.
pub open spec fn is_recognized(ext: Seq<char>) -> bool {
    ext == "evtx"@
}

/// The warning for a file whose extension no format handles.
pub open spec fn unsupported_warning(ext: Seq<char>) -> Seq<char> {
    "file type is not currently supported - "@ + ext
}

/// The warning for a file without extension that no format recognised.
pub open spec fn unknown_warning() -> Seq<char> {
    "file type is not known"@
}

/// The item of a document stream for what a parser handed out.
pub open spec fn document_of<R>(item: Option<Result<R, String>>) -> Option<Result<Document<R>, Error>> {
    match item {
        Some(Ok(rec)) => Some(Ok(Document::Evtx(rec))),
        Some(Err(m)) => Some(Err(Error::Format(m))),
        None => None,
    }
}

/// `r` is an outcome that loading `file` with these flags allows, where
/// `before` and `after` are the warnings before and after the call. A
/// recognised extension opens its parser (or fails with its error); another
/// extension, or none, gives no parser unless `load_unknown` is set; then an
/// unhandled extension warns (`skip_errors`) or fails, and a file without
/// extension is tried with every format before it warns or fails.
pub open spec fn load_allows<P: FormatParser>(
    file: Seq<char>,
    load_unknown: bool,
    skip_errors: bool,
    before: Seq<Seq<char>>,
    after: Seq<Seq<char>>,
    r: Result<Reader<P>, Error>,
) -> bool {
    match extension_of(file) {
        Some(ext) => if is_recognized(ext) {
            &&& r matches Ok(rd) ==> rd.spec_parser() is Evtx
            &&& r matches Err(e) ==> e is Format
            &&& after == before
        } else if !load_unknown {
            &&& r matches Ok(rd) && rd.spec_parser() is Unknown
            &&& after == before
        } else if skip_errors {
            &&& r matches Ok(rd) && rd.spec_parser() is Unknown
            &&& after == before.push(unsupported_warning(ext))
        } else {
            &&& r matches Err(Error::UnsupportedFormat(e)) && e@ == ext
            &&& after == before
        },
        None => if !load_unknown {
            &&& r matches Ok(rd) && rd.spec_parser() is Unknown
            &&& after == before
        } else {
            ||| (r matches Ok(rd) && rd.spec_parser() is Evtx)
                && after == before
            ||| skip_errors && (r matches Ok(rd) && rd.spec_parser() is Unknown)
                && after == before.push(unknown_warning())
            ||| !skip_errors && r == Err::<Reader<P>, Error>(Error::UnknownFormat)
                && after == before
        },
    }
}

/// A file with the recognised extension gets that format's parser, never
/// none, whatever the flags; if the parser cannot open the file, its error is
/// what loading returns, and nothing is warned.
pub proof fn lemma_recognized_extension_is_parsed<P: FormatParser>(
    file: Seq<char>,
    load_unknown: bool,
    skip_errors: bool,
    before: Seq<Seq<char>>,
    after: Seq<Seq<char>>,
    r: Result<Reader<P>, Error>,
)
    requires
        extension_of(file) matches Some(ext) && is_recognized(ext),
        load_allows(file, load_unknown, skip_errors, before, after, r),
    ensures
        r matches Ok(rd) ==> rd.spec_parser() is Evtx,
        r matches Err(e) ==> e is Format,
        after == before,
{
}

/// Without `load_unknown`, a file with an unhandled extension is loaded with
/// no parser and no warning, whatever `skip_errors` says; its documents are
/// then none.
pub proof fn lemma_unhandled_extension_is_skipped<P: FormatParser>(
    file: Seq<char>,
    skip_errors: bool,
    before: Seq<Seq<char>>,
    after: Seq<Seq<char>>,
    r: Result<Reader<P>, Error>,
)
    requires
        extension_of(file) matches Some(ext) && !is_recognized(ext),
        load_allows(file, false, skip_errors, before, after, r),
    ensures
        r matches Ok(rd) && rd.spec_parser() is Unknown,
        after == before,
{
}

/// In strict mode a file with an unhandled extension fails with
/// `UnsupportedFormat`, naming the extension.
pub proof fn lemma_unhandled_extension_strict_fails<P: FormatParser>(
    file: Seq<char>,
    before: Seq<Seq<char>>,
    after: Seq<Seq<char>>,
    r: Result<Reader<P>, Error>,
)
    requires
        extension_of(file) is Some && !is_recognized(extension_of(file)->0),
        load_allows(file, true, false, before, after, r),
    ensures
        r matches Err(Error::UnsupportedFormat(e)) && Some(e@) == extension_of(file),
        after == before,
{
}

/// Without `load_unknown`, a file without extension is loaded with no parser
/// and no warning; its documents are then none.
pub proof fn lemma_extensionless_is_skipped<P: FormatParser>(
    file: Seq<char>,
    skip_errors: bool,
    before: Seq<Seq<char>>,
    after: Seq<Seq<char>>,
    r: Result<Reader<P>, Error>,
)
    requires
        extension_of(file) is None,
        load_allows(file, false, skip_errors, before, after, r),
    ensures
        r matches Ok(rd) && rd.spec_parser() is Unknown,
        after == before,
{
}

enum Source<'a, P> {
    Records(&'a mut P),
    Empty(Unknown),
}

/// The documents of a reader, pulled one at a time. It holds the reader's
/// parser for as long as it lives.
pub struct Documents<'a, P> {
    source: Source<'a, P>,
}

impl<'a, P: FormatParser> Documents<'a, P> {
    /// The stream has nothing to pull from: it stays empty.
    pub closed spec fn is_exhausted(&self) -> bool {
        self.source is Empty
    }

    /// Turns what a parser handed out into an item of the stream.
    pub fn wrap(item: Option<Result<P::Record, String>>) -> (r: Option<Result<Document<P::Record>, Error>>)
        ensures
            r == document_of(item),
    {
        match item {
            Some(Ok(rec)) => Some(Ok(Document::Evtx(rec))),
            Some(Err(m)) => Some(Err(Error::Format(m))),
            None => None,
        }
    }

    /// The next document, or the error of the record that failed; `None` once
    /// the parser has no more records.
    pub fn next(&mut self) -> (r: Option<Result<Document<P::Record>, Error>>)
        ensures
            final(self).is_exhausted() == old(self).is_exhausted(),
            old(self).is_exhausted() ==> r is None,
            exists|item: Option<Result<P::Record, String>>| r == document_of(item),
    {
        match &mut self.source {
            Source::Records(p) => {
                let item = p.next_record();
                Self::wrap(item)
            },
            Source::Empty(u) => {
                let r = u.next();
                assert(r == document_of::<P::Record>(None));
                r
            },
        }
    }
}

/// Reads one file: it holds the parser that was chosen for the file when the
/// reader was made, and that parser only.
pub struct Reader<P> {
    parser: Parser<P>,
}

impl<P: FormatParser> Reader<P> {
    /// The parser that this reader holds, fixed when the reader was made.
    pub closed spec fn spec_parser(&self) -> Parser<P> {
        self.parser
    }

    /// The parser that this reader holds.
    pub fn parser(&self) -> (r: &Parser<P>)
        ensures
            *r == self.spec_parser(),
    {
        &self.parser
    }

    /// The reader for the outcome of opening a file with the evtx parser:
    /// that parser, or its error as a format error.
    pub fn from_loaded(opened: Result<P, String>) -> (r: Result<Self, Error>)
        ensures
            match opened {
                Ok(p) => r matches Ok(rd) && rd.spec_parser() == Parser::Evtx(p),
                Err(m) => r == Err::<Self, Error>(Error::Format(m)),
            },
    {
        match opened {
            Ok(p) => Ok(Reader { parser: Parser::Evtx(p) }),
            Err(m) => Err(Error::Format(m)),
        }
    }
    /// The reader for a file without extension once every format has been
    /// tried on it: the parser that recognised it if one did; else, with
    /// `skip_errors`, no parser and a warning; else `UnknownFormat`.
    pub fn after_sniff(found: Option<P>, skip_errors: bool, warnings: &mut Vec<String>) -> (r: Result<Self, Error>)
        ensures
            match found {
                Some(p) => {
                    &&& r matches Ok(rd) && rd.spec_parser() == Parser::Evtx(p)
                    &&& final(warnings).deep_view() == old(warnings).deep_view()
                },
                None => if skip_errors {
                    &&& r matches Ok(rd) && rd.spec_parser() is Unknown
                    &&& final(warnings).deep_view() == old(warnings).deep_view().push(unknown_warning())
                } else {
                    &&& r == Err::<Self, Error>(Error::UnknownFormat)
                    &&& final(warnings).deep_view() == old(warnings).deep_view()
                },
            },
    {
        match found {
            Some(p) => Ok(Reader { parser: Parser::Evtx(p) }),
            None => {
                if skip_errors {
                    let w = "file type is not known".to_owned();
                    warnings.push(w);
                    assert(warnings.deep_view() =~= old(warnings).deep_view().push(unknown_warning()));
                    Ok(Reader { parser: Parser::Unknown })
                } else {
                    Err(Error::UnknownFormat)
                }
            },
        }
    }
    /// Makes the reader of `file`, choosing its parser by the file's extension.
    /// A file whose extension is evtx gets the evtx parser, or the error that
    /// parser gave. Other files get no parser, unless `load_unknown` asks for
    /// more: then a file with an unhandled extension is a warning (with
    /// `skip_errors`) or an `UnsupportedFormat` error, and a file without
    /// extension is tried with every format, and is a warning (with
    /// `skip_errors`) or an `UnknownFormat` error if none takes it.
    pub fn load(file: &str, load_unknown: bool, skip_errors: bool, warnings: &mut Vec<String>) -> (r: Result<Self, Error>)
        ensures
            load_allows(file@, load_unknown, skip_errors, old(warnings).deep_view(), final(warnings).deep_view(), r),
    {
        match extension(file) {
            Some(ext) => {
                if ext == "evtx".to_owned() {
                    Self::from_loaded(P::load(file))
                } else if !load_unknown {
                    Ok(Reader { parser: Parser::Unknown })
                } else if skip_errors {
                    let mut w = "file type is not currently supported - ".to_owned();
                    w.append(ext.as_str());
                    warnings.push(w);
                    assert(warnings.deep_view() =~= old(warnings).deep_view().push(unsupported_warning(ext@)));
                    Ok(Reader { parser: Parser::Unknown })
                } else {
                    Err(Error::UnsupportedFormat(ext))
                }
            },
            None => {
                if !load_unknown {
                    Ok(Reader { parser: Parser::Unknown })
                } else {
                    let found = match P::load(file) {
                        Ok(p) => Some(p),
                        Err(_) => None,
                    };
                    Self::after_sniff(found, skip_errors, warnings)
                }
            },
        }
    }
    /// The documents of this reader's file. The stream holds the parser
    /// until it is dropped; a reader without parser gives an empty stream and
    /// stays as it was.
    pub fn documents(&mut self) -> (r: Documents<'_, P>)
        ensures
            r.is_exhausted() <==> old(self).spec_parser() is Unknown,
            old(self).spec_parser() is Unknown ==> *final(self) == *old(self),
            final(self).spec_parser() is Evtx <==> old(self).spec_parser() is Evtx,
    {
        match &mut self.parser {
            Parser::Evtx(p) => Documents { source: Source::Records(p) },
            Parser::Unknown => Documents { source: Source::Empty(Unknown) },
        }
    }
}

} // verus!
