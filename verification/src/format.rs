use crate::text::{lowered, lowered_chars, same_chars};
use vstd::prelude::*;

verus! {

/// A single-stream compression algorithm: bytes in, bytes out, no entries.
#[derive(Clone, Copy, Debug, PartialEq, Eq, Structural)]
pub enum StreamFormat {
    Gz,
    Lz4,
    Sz,
}

/// A container format that holds named entries.
#[derive(Clone, Copy, Debug, PartialEq, Eq, Structural)]
pub enum ArchiveFormat {
    A,
    Ar,
    Tar,
    Iso,
    Bz2,
    Lzma,
    Xz,
    P7z,
    Alz,
    Egg,
    Apk,
    Cab,
    Dmg,
    Rar,
    Zip,
}

/// What an extension token stands for.
#[derive(Clone, Copy, Debug, PartialEq, Eq, Structural)]
pub enum FormatType {
    Stream(StreamFormat),
    Archive(ArchiveFormat),
}

/// The two classes of format, as far as placing the output is concerned.
#[derive(Clone, Copy, Debug, PartialEq, Eq, Structural)]
pub enum FormatClass {
    Stream,
    Archive,
}

impl StreamFormat {
    /// The extension token of the format.
    pub open spec fn spec_token(self) -> Seq<char> {
        match self {
            StreamFormat::Gz => seq!['g', 'z'],
            StreamFormat::Lz4 => seq!['l', 'z', '4'],
            StreamFormat::Sz => seq!['s', 'z'],
        }
    }

    /// The extension token of the format.
    pub fn token(&self) -> (r: &'static str)
        ensures
            r@ == self.spec_token(),
    {
        proof {
            reveal_strlit("gz");
            reveal_strlit("lz4");
            reveal_strlit("sz");
        }
        let r = match self {
            StreamFormat::Gz => "gz",
            StreamFormat::Lz4 => "lz4",
            StreamFormat::Sz => "sz",
        };
        assert(r@ =~= self.spec_token());
        r
    }

    /// The format that a lower-case token names, if any.
    pub open spec fn by_token(token: Seq<char>) -> Option<StreamFormat> {
        if token == StreamFormat::Gz.spec_token() {
            Some(StreamFormat::Gz)
        } else if token == StreamFormat::Lz4.spec_token() {
            Some(StreamFormat::Lz4)
        } else if token == StreamFormat::Sz.spec_token() {
            Some(StreamFormat::Sz)
        } else {
            None
        }
    }
}

impl ArchiveFormat {
    /// The extension token of the format.
    pub open spec fn spec_token(self) -> Seq<char> {
        match self {
            ArchiveFormat::A => seq!['a'],
            ArchiveFormat::Ar => seq!['a', 'r'],
            ArchiveFormat::Tar => seq!['t', 'a', 'r'],
            ArchiveFormat::Iso => seq!['i', 's', 'o'],
            ArchiveFormat::Bz2 => seq!['b', 'z', '2'],
            ArchiveFormat::Lzma => seq!['l', 'z', 'm', 'a'],
            ArchiveFormat::Xz => seq!['x', 'z'],
            ArchiveFormat::P7z => seq!['p', '7', 'z'],
            ArchiveFormat::Alz => seq!['a', 'l', 'z'],
            ArchiveFormat::Egg => seq!['e', 'g', 'g'],
            ArchiveFormat::Apk => seq!['a', 'p', 'k'],
            ArchiveFormat::Cab => seq!['c', 'a', 'b'],
            ArchiveFormat::Dmg => seq!['d', 'm', 'g'],
            ArchiveFormat::Rar => seq!['r', 'a', 'r'],
            ArchiveFormat::Zip => seq!['z', 'i', 'p'],
        }
    }

    /// The extension token of the format.
    pub fn token(&self) -> (r: &'static str)
        ensures
            r@ == self.spec_token(),
    {
        proof {
            reveal_strlit("a");
            reveal_strlit("ar");
            reveal_strlit("tar");
            reveal_strlit("iso");
            reveal_strlit("bz2");
            reveal_strlit("lzma");
            reveal_strlit("xz");
            reveal_strlit("p7z");
            reveal_strlit("alz");
            reveal_strlit("egg");
            reveal_strlit("apk");
            reveal_strlit("cab");
            reveal_strlit("dmg");
            reveal_strlit("rar");
            reveal_strlit("zip");
        }
        let r = match self {
            ArchiveFormat::A => "a",
            ArchiveFormat::Ar => "ar",
            ArchiveFormat::Tar => "tar",
            ArchiveFormat::Iso => "iso",
            ArchiveFormat::Bz2 => "bz2",
            ArchiveFormat::Lzma => "lzma",
            ArchiveFormat::Xz => "xz",
            ArchiveFormat::P7z => "p7z",
            ArchiveFormat::Alz => "alz",
            ArchiveFormat::Egg => "egg",
            ArchiveFormat::Apk => "apk",
            ArchiveFormat::Cab => "cab",
            ArchiveFormat::Dmg => "dmg",
            ArchiveFormat::Rar => "rar",
            ArchiveFormat::Zip => "zip",
        };
        assert(r@ =~= self.spec_token());
        r
    }

    /// The format that a lower-case token names, if any.
    pub open spec fn by_token(token: Seq<char>) -> Option<ArchiveFormat> {
        if token == ArchiveFormat::A.spec_token() {
            Some(ArchiveFormat::A)
        } else if token == ArchiveFormat::Ar.spec_token() {
            Some(ArchiveFormat::Ar)
        } else if token == ArchiveFormat::Tar.spec_token() {
            Some(ArchiveFormat::Tar)
        } else if token == ArchiveFormat::Iso.spec_token() {
            Some(ArchiveFormat::Iso)
        } else if token == ArchiveFormat::Bz2.spec_token() {
            Some(ArchiveFormat::Bz2)
        } else if token == ArchiveFormat::Lzma.spec_token() {
            Some(ArchiveFormat::Lzma)
        } else if token == ArchiveFormat::Xz.spec_token() {
            Some(ArchiveFormat::Xz)
        } else if token == ArchiveFormat::P7z.spec_token() {
            Some(ArchiveFormat::P7z)
        } else if token == ArchiveFormat::Alz.spec_token() {
            Some(ArchiveFormat::Alz)
        } else if token == ArchiveFormat::Egg.spec_token() {
            Some(ArchiveFormat::Egg)
        } else if token == ArchiveFormat::Apk.spec_token() {
            Some(ArchiveFormat::Apk)
        } else if token == ArchiveFormat::Cab.spec_token() {
            Some(ArchiveFormat::Cab)
        } else if token == ArchiveFormat::Dmg.spec_token() {
            Some(ArchiveFormat::Dmg)
        } else if token == ArchiveFormat::Rar.spec_token() {
            Some(ArchiveFormat::Rar)
        } else if token == ArchiveFormat::Zip.spec_token() {
            Some(ArchiveFormat::Zip)
        } else {
            None
        }
    }

    /// Whether the format can be unpacked from a stream that is read once,
    /// front to back. No format offers this.
    pub fn is_support_streaming() -> (r: bool)
        ensures
            !r,
    {
        false
    }

    /// Whether the format can be unpacked from a stream that can seek. No
    /// format offers this.
    pub fn is_support_seekable_streaming() -> (r: bool)
        ensures
            !r,
    {
        false
    }

    /// Whether the format can be unpacked from a buffer held in memory. No
    /// format offers this.
    pub fn is_support_memory() -> (r: bool)
        ensures
            !r,
    {
        false
    }
}

impl FormatType {
    /// The class of the format.
    pub open spec fn spec_class(self) -> FormatClass {
        match self {
            FormatType::Stream(_) => FormatClass::Stream,
            FormatType::Archive(_) => FormatClass::Archive,
        }
    }

    /// The class of the format.
    pub fn class(&self) -> (r: FormatClass)
        ensures
            r == self.spec_class(),
    {
        match self {
            FormatType::Stream(_) => FormatClass::Stream,
            FormatType::Archive(_) => FormatClass::Archive,
        }
    }
}

/// What a token stands for: the stream format of that name, else the archive
/// format of that name, else nothing. Letter case does not count.
pub open spec fn spec_detect_format(token: Seq<char>) -> Option<FormatType> {
    let t = lowered(token);
    match StreamFormat::by_token(t) {
        Some(f) => Some(FormatType::Stream(f)),
        None => match ArchiveFormat::by_token(t) {
            Some(f) => Some(FormatType::Archive(f)),
            None => None,
        },
    }
}

/// Looks an extension token up among the stream formats, then among the
/// archive formats.
pub fn detect_format(ext: &str) -> (r: Option<FormatType>)
    ensures
        r == spec_detect_format(ext@),
{
    let t = lowered_chars(ext);
    if same_chars(&t, StreamFormat::Gz.token()) {
        Some(FormatType::Stream(StreamFormat::Gz))
    } else if same_chars(&t, StreamFormat::Lz4.token()) {
        Some(FormatType::Stream(StreamFormat::Lz4))
    } else if same_chars(&t, StreamFormat::Sz.token()) {
        Some(FormatType::Stream(StreamFormat::Sz))
    } else if same_chars(&t, ArchiveFormat::A.token()) {
        Some(FormatType::Archive(ArchiveFormat::A))
    } else if same_chars(&t, ArchiveFormat::Ar.token()) {
        Some(FormatType::Archive(ArchiveFormat::Ar))
    } else if same_chars(&t, ArchiveFormat::Tar.token()) {
        Some(FormatType::Archive(ArchiveFormat::Tar))
    } else if same_chars(&t, ArchiveFormat::Iso.token()) {
        Some(FormatType::Archive(ArchiveFormat::Iso))
    } else if same_chars(&t, ArchiveFormat::Bz2.token()) {
        Some(FormatType::Archive(ArchiveFormat::Bz2))
    } else if same_chars(&t, ArchiveFormat::Lzma.token()) {
        Some(FormatType::Archive(ArchiveFormat::Lzma))
    } else if same_chars(&t, ArchiveFormat::Xz.token()) {
        Some(FormatType::Archive(ArchiveFormat::Xz))
    } else if same_chars(&t, ArchiveFormat::P7z.token()) {
        Some(FormatType::Archive(ArchiveFormat::P7z))
    } else if same_chars(&t, ArchiveFormat::Alz.token()) {
        Some(FormatType::Archive(ArchiveFormat::Alz))
    } else if same_chars(&t, ArchiveFormat::Egg.token()) {
        Some(FormatType::Archive(ArchiveFormat::Egg))
    } else if same_chars(&t, ArchiveFormat::Apk.token()) {
        Some(FormatType::Archive(ArchiveFormat::Apk))
    } else if same_chars(&t, ArchiveFormat::Cab.token()) {
        Some(FormatType::Archive(ArchiveFormat::Cab))
    } else if same_chars(&t, ArchiveFormat::Dmg.token()) {
        Some(FormatType::Archive(ArchiveFormat::Dmg))
    } else if same_chars(&t, ArchiveFormat::Rar.token()) {
        Some(FormatType::Archive(ArchiveFormat::Rar))
    } else if same_chars(&t, ArchiveFormat::Zip.token()) {
        Some(FormatType::Archive(ArchiveFormat::Zip))
    } else {
        None
    }
}

/// No stream format has the name of an archive format.
pub proof fn lemma_tokens_are_disjoint(s: StreamFormat, a: ArchiveFormat)
    ensures
        s.spec_token() != a.spec_token(),
{
    let x = s.spec_token();
    let y = a.spec_token();
    if x == y {
        assert(x.len() == y.len());
        assert(x[0] == y[0]);
    }
}

/// A token names a stream format exactly where it is the name of that
/// format: no two stream formats share a name.
pub proof fn lemma_stream_by_token(token: Seq<char>, f: StreamFormat)
    ensures
        StreamFormat::by_token(token) == Some(f) <==> token == f.spec_token(),
{
    if token == f.spec_token() && StreamFormat::by_token(token) != Some(f) {
        let g = StreamFormat::by_token(token)->0;
        assert(token == g.spec_token());
        assert(g.spec_token().len() == f.spec_token().len());
        assert(g.spec_token()[0] == f.spec_token()[0]);
    }
}

/// A token names an archive format exactly where it is the name of that
/// format: no two archive formats share a name.
pub proof fn lemma_archive_by_token(token: Seq<char>, f: ArchiveFormat)
    ensures
        ArchiveFormat::by_token(token) == Some(f) <==> token == f.spec_token(),
{
    if token == f.spec_token() && ArchiveFormat::by_token(token) != Some(f) {
        let g = ArchiveFormat::by_token(token)->0;
        assert(token == g.spec_token());
        assert(g.spec_token().len() == f.spec_token().len());
        assert(g.spec_token()[0] == f.spec_token()[0]);
        if f.spec_token().len() > 1 {
            assert(g.spec_token()[1] == f.spec_token()[1]);
        }
    }
}

/// A token stands for a stream format exactly where, in lower case, it is
/// the name of that format.
pub proof fn lemma_detect_stream(token: Seq<char>, f: StreamFormat)
    ensures
        spec_detect_format(token) == Some(FormatType::Stream(f)) <==> lowered(token)
            == f.spec_token(),
{
    lemma_stream_by_token(lowered(token), f);
}

/// A token stands for an archive format exactly where, in lower case, it is
/// the name of that format.
pub proof fn lemma_detect_archive(token: Seq<char>, f: ArchiveFormat)
    ensures
        spec_detect_format(token) == Some(FormatType::Archive(f)) <==> lowered(token)
            == f.spec_token(),
{
    let t = lowered(token);
    lemma_archive_by_token(t, f);
    if t == f.spec_token() {
        lemma_tokens_are_disjoint(StreamFormat::Gz, f);
        lemma_tokens_are_disjoint(StreamFormat::Lz4, f);
        lemma_tokens_are_disjoint(StreamFormat::Sz, f);
    }
}

/// A token stands for nothing exactly where, in lower case, it is the name
/// of no format.
pub proof fn lemma_detect_nothing(token: Seq<char>)
    ensures
        spec_detect_format(token) is None <==> (forall|f: StreamFormat|
            lowered(token) != #[trigger] f.spec_token()) && (forall|f: ArchiveFormat|
            lowered(token) != #[trigger] f.spec_token()),
{
    let t = lowered(token);
    assert forall|f: StreamFormat| StreamFormat::by_token(t) is None implies t
        != #[trigger] f.spec_token() by {
        lemma_stream_by_token(t, f);
    }
    assert forall|f: ArchiveFormat| ArchiveFormat::by_token(t) is None implies t
        != #[trigger] f.spec_token() by {
        lemma_archive_by_token(t, f);
    }
    if StreamFormat::by_token(t) is Some {
        lemma_stream_by_token(t, StreamFormat::by_token(t)->0);
    }
    if ArchiveFormat::by_token(t) is Some {
        lemma_archive_by_token(t, ArchiveFormat::by_token(t)->0);
    }
}

} // verus!
