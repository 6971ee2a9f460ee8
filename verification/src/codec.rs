//! Container-format classification and decompression.
//!
//! The format is classified from the declared media type alone: zip archives
//! are opened and their first entry is recovered under the entry's own
//! recorded name; gzip streams (and octet-stream attachments, which report
//! senders use for gzip streams) are decoded and renamed by stripping one
//! trailing extension component. The zip and gzip decoders themselves come
//! from outside and are relied upon through the two wrappers below.

use vstd::prelude::*;

use crate::attach::Attachment;

verus! {

/// Container format of an attachment, classified from its declared media type.
#[derive(Clone, Copy, PartialEq, Eq, Structural, Debug)]
pub enum Format {
    /// A zip-style archive of named entries.
    Archive,
    /// A single gzip-compressed stream with no internal naming.
    GzipStream,
}

/// Why decompression of an extracted attachment failed.
#[derive(Clone, Copy, PartialEq, Eq, Structural, Debug)]
pub enum DecompressError {
    /// The bytes are not a readable archive, or its first entry does not decode.
    CorruptArchive,
    /// The bytes are not a valid gzip stream, or the stream does not decode.
    CorruptStream,
}

/// The format a declared media type maps to: zip is an archive; gzip and
/// everything else — in particular octet-stream — is treated as a gzip stream.
pub open spec fn spec_format(m: Seq<char>) -> Format {
    if m == "application/zip"@ {
        Format::Archive
    } else {
        Format::GzipStream
    }
}

/// Classifies the container format from the declared media type.
pub fn detect_format(m: &String) -> (f: Format)
    ensures
        f == spec_format(m@),
{
    let zip: String = String::from_str("application/zip");
    if *m == zip {
        Format::Archive
    } else {
        Format::GzipStream
    }
}

/// What the zip reader yields for these bytes: the first entry's decompressed
/// contents and recorded name, or nothing when the bytes are not a readable
/// archive or the first entry does not decode.
pub uninterp spec fn zip_first_entry(b: Seq<u8>) -> Option<(Seq<u8>, Seq<char>)>;

/// Relies on zip::ZipArchive (new, by_index, the Read impl of its entries) to
/// open the bytes as a zip archive and decompress the entry at index zero;
/// the outcome is a function of the bytes alone.
#[verifier::external_body]
fn read_zip_first_entry(content: &Vec<u8>) -> (r: Option<(Vec<u8>, String)>)
    ensures
        match r {
            Some(e) => zip_first_entry(content@) == Some((e.0@, e.1@)),
            None => zip_first_entry(content@) is None,
        },
{
    let cursor = std::io::Cursor::new(content.as_slice());
    let mut archive = match zip::ZipArchive::new(cursor) {
        Ok(a) => a,
        Err(_) => return None,
    };
    let mut entry = match archive.by_index(0) {
        Ok(e) => e,
        Err(_) => return None,
    };
    let name = entry.name().to_string();
    let mut data = Vec::new();
    match std::io::Read::read_to_end(&mut entry, &mut data) {
        Ok(_) => Some((data, name)),
        Err(_) => None,
    }
}

/// What the gzip decoder yields for these bytes: the decoded stream, or
/// nothing when the bytes are not a valid gzip stream or do not decode.
pub uninterp spec fn gzip_stream(b: Seq<u8>) -> Option<Seq<u8>>;

/// Relies on libflate::gzip::Decoder (new and its Read impl) to decode the
/// bytes as a gzip stream; the outcome is a function of the bytes alone.
#[verifier::external_body]
fn read_gzip_stream(content: &Vec<u8>) -> (r: Option<Vec<u8>>)
    ensures
        match r {
            Some(d) => gzip_stream(content@) == Some(d@),
            None => gzip_stream(content@) is None,
        },
{
    let cursor = std::io::Cursor::new(content.as_slice());
    let mut decoder = match libflate::gzip::Decoder::new(cursor) {
        Ok(d) => d,
        Err(_) => return None,
    };
    let mut data = Vec::new();
    match std::io::Read::read_to_end(&mut decoder, &mut data) {
        Ok(_) => Some(data),
        Err(_) => None,
    }
}

/// Index of the last '.' in the name, or -1 when the name has none.
pub open spec fn last_dot(s: Seq<char>) -> int
    decreases s.len(),
{
    if s.len() == 0 {
        -1
    } else if s[s.len() - 1] == '.' {
        s.len() - 1
    } else {
        last_dot(s.drop_last())
    }
}

/// The name with one trailing extension component stripped: everything before
/// the last '.', unless there is no '.' or the only one leads the name (a
/// bare dotfile), in which case the name is unchanged.
pub open spec fn strip_ext(s: Seq<char>) -> Seq<char> {
    if last_dot(s) >= 1 {
        s.take(last_dot(s))
    } else {
        s
    }
}

/// Derives the gzip output name from the attachment name by stripping one
/// trailing extension component.
pub fn strip_extension(name: &String) -> (r: String)
    ensures
        r@ == strip_ext(name@),
{
    let s = name.as_str();
    let n = s.unicode_len();
    let mut i: usize = n;
    proof {
        assert(s@.take(n as int) =~= s@);
    }
    while i > 0
        invariant
            i <= n,
            n == s@.len(),
            s@ == name@,
            last_dot(s@.take(i as int)) == last_dot(s@),
        decreases i,
    {
        let c = s.get_char(i - 1);
        proof {
            let t = s@.take(i as int);
            assert(t[i - 1] == s@[i - 1]);
        }
        if c == '.' {
            if i - 1 >= 1 {
                let stem = s.substring_char(0, i - 1);
                proof {
                    assert(last_dot(s@) == i - 1);
                    assert(s@.take(i - 1) =~= s@.subrange(0, i - 1));
                }
                return stem.to_owned();
            } else {
                proof {
                    assert(last_dot(s@) == 0);
                }
                return name.clone();
            }
        }
        proof {
            assert(s@.take(i as int).drop_last() =~= s@.take(i - 1));
        }
        i = i - 1;
    }
    proof {
        assert(s@.take(0) =~= Seq::<char>::empty());
        assert(last_dot(s@) == -1);
    }
    name.clone()
}

/// What decompression yields for an extracted attachment: the recovered
/// document and the output filename, or the failure that fits the format.
pub open spec fn spec_decompress(content: Seq<u8>, mimetype: Seq<char>, name: Seq<char>) -> Result<
    (Seq<u8>, Seq<char>),
    DecompressError,
> {
    if spec_format(mimetype) is Archive {
        match zip_first_entry(content) {
            Some(e) => Ok((e.0, e.1)),
            None => Err(DecompressError::CorruptArchive),
        }
    } else {
        match gzip_stream(content) {
            Some(d) => Ok((d, strip_ext(name))),
            None => Err(DecompressError::CorruptStream),
        }
    }
}

/// Decompresses the attachment and rewrites its name: a zip archive yields
/// its first entry's bytes under the entry's recorded name, and a gzip stream
/// yields the decoded bytes under the attachment name with one extension
/// component stripped. The raw content and the media type are retained.
pub fn decompress(a: Attachment) -> (r: Result<Attachment, DecompressError>)
    ensures
        match spec_decompress(a.content@, a.mimetype@, a.name@) {
            Ok(e) => r matches Ok(b) && b.decompressed matches Some(d) && d@ == e.0 && b.name@
                == e.1 && b.content@ == a.content@ && b.mimetype@ == a.mimetype@,
            Err(e) => r == Err::<Attachment, DecompressError>(e),
        },
{
    match detect_format(&a.mimetype) {
        Format::Archive => match read_zip_first_entry(&a.content) {
            Some(e) => Ok(
                Attachment {
                    decompressed: Some(e.0),
                    name: e.1,
                    content: a.content,
                    mimetype: a.mimetype,
                },
            ),
            None => Err(DecompressError::CorruptArchive),
        },
        Format::GzipStream => match read_gzip_stream(&a.content) {
            Some(d) => {
                let out_name = strip_extension(&a.name);
                Ok(
                    Attachment {
                        decompressed: Some(d),
                        name: out_name,
                        content: a.content,
                        mimetype: a.mimetype,
                    },
                )
            },
            None => Err(DecompressError::CorruptStream),
        },
    }
}

/// Decompression is repeatable: two runs over the same attachment data give
/// the same outcome, recovered bytes and derived name alike.
pub proof fn lemma_decompress_repeatable(
    content: Seq<u8>,
    mimetype: Seq<char>,
    name: Seq<char>,
    r1: Result<(Seq<u8>, Seq<char>), DecompressError>,
    r2: Result<(Seq<u8>, Seq<char>), DecompressError>,
)
    requires
        r1 == spec_decompress(content, mimetype, name),
        r2 == spec_decompress(content, mimetype, name),
    ensures
        r1 == r2,
{
}

/// The archive output name comes from the archive's first entry alone: the
/// attachment's declared filename plays no part in an archive's outcome.
pub proof fn lemma_archive_name_independent(
    content: Seq<u8>,
    mimetype: Seq<char>,
    name1: Seq<char>,
    name2: Seq<char>,
)
    requires
        spec_format(mimetype) is Archive,
    ensures
        spec_decompress(content, mimetype, name1) == spec_decompress(content, mimetype, name2),
{
}

/// A successful archive decompression returns exactly the first entry's
/// decompressed bytes and recorded name.
pub proof fn lemma_archive_output_is_first_entry(
    content: Seq<u8>,
    mimetype: Seq<char>,
    name: Seq<char>,
)
    requires
        spec_format(mimetype) is Archive,
        zip_first_entry(content) is Some,
    ensures
        spec_decompress(content, mimetype, name) matches Ok(e) && zip_first_entry(content)
            == Some((e.0, e.1)),
{
}

/// A successful gzip-stream decompression returns exactly the decoded bytes,
/// under the attachment name with one extension component stripped.
pub proof fn lemma_gzip_output_name(content: Seq<u8>, mimetype: Seq<char>, name: Seq<char>)
    requires
        spec_format(mimetype) is GzipStream,
        gzip_stream(content) is Some,
    ensures
        spec_decompress(content, mimetype, name) matches Ok(e) && gzip_stream(content) == Some(e.0)
            && e.1 == strip_ext(name),
{
}

/// Wherever the name's last '.' sits, the characters after it hold no '.',
/// and where there is none at all the name holds no '.'.
proof fn lemma_last_dot_char(s: Seq<char>)
    ensures
        last_dot(s) >= -1,
        last_dot(s) >= 0 ==> last_dot(s) < s.len() && s[last_dot(s)] == '.',
        last_dot(s) >= 0 ==> forall|j: int| last_dot(s) < j < s.len() ==> s[j] != '.',
        last_dot(s) == -1 ==> forall|j: int| 0 <= j < s.len() ==> s[j] != '.',
    decreases s.len(),
{
    if s.len() > 0 && s[s.len() - 1] != '.' {
        lemma_last_dot_char(s.drop_last());
        assert(forall|j: int| 0 <= j < s.len() - 1 ==> s.drop_last()[j] == s[j]);
    }
}

/// A name without an extension — no '.' anywhere past a possible leading
/// one — is left unchanged by name derivation.
pub proof fn lemma_strip_ext_no_extension(s: Seq<char>)
    requires
        forall|i: int| 1 <= i < s.len() ==> s[i] != '.',
    ensures
        strip_ext(s) == s,
{
    lemma_last_dot_char(s);
}

/// Stripping the extension from a non-empty stem joined by '.' to a dotless
/// extension gives back exactly the stem.
pub proof fn lemma_strip_ext_appended(stem: Seq<char>, ext: Seq<char>)
    requires
        stem.len() >= 1,
        forall|i: int| 0 <= i < ext.len() ==> ext[i] != '.',
    ensures
        strip_ext(stem + seq!['.'] + ext) == stem,
{
    let s = stem + seq!['.'] + ext;
    let k = stem.len() as int;
    assert(s[k] == '.');
    lemma_last_dot_char(s);
    if last_dot(s) > k {
        assert(s[last_dot(s)] == ext[last_dot(s) - k - 1]);
    }
    assert(last_dot(s) == k);
    assert(s.take(k) =~= stem);
}

} // verus!
