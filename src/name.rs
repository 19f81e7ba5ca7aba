use vstd::prelude::*;

use crate::config::DELIMITER;
use crate::timestamp::{lemma_timestamp_no_delimiter, timestamp_chars, Timestamp};

verus! {

#[verifier::external_type_specification]
#[verifier::external_body]
pub struct ExHash(blake3::Hash);

/// Number of trailing hex digits of the content digest kept in an artifact name.
pub const HASH_SUFFIX_LEN: usize = 7;

pub open spec fn is_lower_hex(c: char) -> bool {
    c == '0' || c == '1' || c == '2' || c == '3' || c == '4' || c == '5' || c == '6' || c == '7'
        || c == '8' || c == '9' || c == 'a' || c == 'b' || c == 'c' || c == 'd' || c == 'e' || c
        == 'f'
}

/// The hex text of a digest, as blake3 writes it; it depends on the digest's bytes alone.
pub uninterp spec fn digest_hex_of(h: blake3::Hash) -> Seq<char>;

/// Relies on blake3's `Hash::to_hex`: the 32 digest bytes as 64 lowercase hex digits.
#[verifier::external_body]
fn digest_hex(h: &blake3::Hash) -> (r: String)
    ensures
        r@ == digest_hex_of(*h),
        r@.len() == 64,
        forall|k: int| 0 <= k < r@.len() ==> is_lower_hex(#[trigger] r@[k]),
{
    h.to_hex().to_string()
}

/// The fields of an artifact name, as character sequences.
pub struct NameView {
    pub prefix: Seq<char>,
    pub name: Seq<char>,
    pub datatime: Seq<char>,
    pub hash: Seq<char>,
    pub extension: Seq<char>,
}

/// Why a file name is not an artifact name.
#[derive(Debug, Clone, Copy, PartialEq, Eq, Structural)]
pub enum NameError {
    /// The name does not end in the archive extension.
    BadExtension,
    /// What precedes the extension is not four delimited fields.
    MalformedFields,
}

/// The name of an uploaded archive:
/// `{prefix}-{name}-{datatime}-{hash}{extension}`.
#[derive(Debug, Clone)]
pub struct CpsdFileName {
    pub prefix: String,
    pub name: String,
    pub datatime: String,
    pub hash: String,
    pub extension: String,
}

impl View for CpsdFileName {
    type V = NameView;

    open spec fn view(&self) -> NameView {
        NameView {
            prefix: self.prefix@,
            name: self.name@,
            datatime: self.datatime@,
            hash: self.hash@,
            extension: self.extension@,
        }
    }
}

pub open spec fn artifact_prefix() -> Seq<char> {
    "backup"@
}

pub open spec fn artifact_extension() -> Seq<char> {
    ".tar.zst"@
}

/// `s` cut at every occurrence of `d`; always at least one (possibly empty) piece.
pub open spec fn split(s: Seq<char>, d: char) -> Seq<Seq<char>>
    decreases s.len(),
{
    if s.len() == 0 {
        seq![Seq::<char>::empty()]
    } else {
        let init = split(s.drop_last(), d);
        if s.last() == d {
            init.push(Seq::<char>::empty())
        } else {
            init.update(init.len() - 1, init.last().push(s.last()))
        }
    }
}

pub open spec fn encode(n: NameView) -> Seq<char> {
    n.prefix + seq![DELIMITER] + n.name + seq![DELIMITER] + n.datatime + seq![DELIMITER] + n.hash
        + n.extension
}

pub open spec fn has_extension(s: Seq<char>) -> bool {
    s.len() >= artifact_extension().len() && s.subrange(
        s.len() - artifact_extension().len(),
        s.len() as int,
    ) == artifact_extension()
}

pub open spec fn decode(s: Seq<char>) -> Result<NameView, NameError> {
    if !has_extension(s) {
        Err(NameError::BadExtension)
    } else {
        let fields = split(s.subrange(0, s.len() - artifact_extension().len()), DELIMITER);
        if fields.len() != 4 {
            Err(NameError::MalformedFields)
        } else {
            Ok(
                NameView {
                    prefix: fields[0],
                    name: fields[1],
                    datatime: fields[2],
                    hash: fields[3],
                    extension: artifact_extension(),
                },
            )
        }
    }
}

pub proof fn lemma_split_nonempty(s: Seq<char>, d: char)
    ensures
        split(s, d).len() >= 1,
    decreases s.len(),
{
    if s.len() > 0 {
        lemma_split_nonempty(s.drop_last(), d);
    }
}

pub proof fn lemma_split_without_delimiter(s: Seq<char>, d: char)
    requires
        !s.contains(d),
    ensures
        split(s, d) == seq![s],
    decreases s.len(),
{
    if s.len() == 0 {
        assert(s =~= Seq::<char>::empty());
        assert(split(s, d) =~= seq![s]);
    } else {
        let init = s.drop_last();
        assert(!init.contains(d)) by {
            if init.contains(d) {
                let k = choose|k: int| 0 <= k < init.len() && init[k] == d;
                assert(s[k] == d);
            }
        }
        lemma_split_without_delimiter(init, d);
        assert(s[s.len() - 1] != d);
        assert(init.push(s.last()) =~= s);
        assert(split(s, d) =~= seq![s]);
    }
}

/// Splitting at a delimiter splits the two sides independently.
pub proof fn lemma_split_concat(x: Seq<char>, y: Seq<char>, d: char)
    ensures
        split(x + seq![d] + y, d) == split(x, d) + split(y, d),
    decreases y.len(),
{
    let s = x + seq![d] + y;
    if y.len() == 0 {
        assert(s.drop_last() =~= x);
        assert(split(s, d) =~= split(x, d) + split(y, d));
    } else {
        let y0 = y.drop_last();
        assert(s.drop_last() =~= x + seq![d] + y0);
        assert(s.last() == y.last());
        lemma_split_concat(x, y0, d);
        lemma_split_nonempty(y0, d);
        let a = split(x, d);
        let b = split(y0, d);
        if y.last() == d {
            assert(split(s, d) =~= a + split(y, d));
        } else {
            assert((a + b).last() == b.last());
            assert((a + b).update(a.len() + b.len() - 1, b.last().push(y.last())) =~= a + b.update(
                b.len() - 1,
                b.last().push(y.last()),
            ));
            assert(split(s, d) =~= a + split(y, d));
        }
    }
}

/// Decoding an encoded name gives the name back, provided no field but the
/// extension holds the delimiter and the extension is the archive extension.
pub proof fn lemma_name_round_trip(n: NameView)
    requires
        !n.prefix.contains(DELIMITER),
        !n.name.contains(DELIMITER),
        !n.datatime.contains(DELIMITER),
        !n.hash.contains(DELIMITER),
        n.extension == artifact_extension(),
    ensures
        decode(encode(n)) == Ok::<NameView, NameError>(n),
{
    let d = DELIMITER;
    let s = encode(n);
    let body = n.prefix + seq![d] + n.name + seq![d] + n.datatime + seq![d] + n.hash;
    let ext = artifact_extension();
    assert(s =~= body + ext);
    assert(s.subrange(s.len() - ext.len(), s.len() as int) =~= ext);
    assert(s.subrange(0, s.len() - ext.len()) =~= body);
    let tail2 = n.datatime + seq![d] + n.hash;
    let tail1 = n.name + seq![d] + tail2;
    assert(body =~= n.prefix + seq![d] + tail1);
    lemma_split_concat(n.prefix, tail1, d);
    lemma_split_concat(n.name, tail2, d);
    lemma_split_concat(n.datatime, n.hash, d);
    lemma_split_without_delimiter(n.prefix, d);
    lemma_split_without_delimiter(n.name, d);
    lemma_split_without_delimiter(n.datatime, d);
    lemma_split_without_delimiter(n.hash, d);
    let fields = split(body, d);
    assert(fields =~= seq![n.prefix, n.name, n.datatime, n.hash]);
}

/// The pieces of `s` between occurrences of `d`.
pub fn split_on(s: &str, d: char) -> (r: Vec<String>)
    ensures
        r@.len() == split(s@, d).len(),
        forall|k: int| 0 <= k < r@.len() ==> #[trigger] r@[k]@ == split(s@, d)[k],
{
    let n = s.unicode_len();
    let mut out: Vec<String> = Vec::new();
    let mut start: usize = 0;
    let mut i: usize = 0;
    while i < n
        invariant
            n == s@.len(),
            start <= i <= n,
            split(s@.subrange(0, i as int), d).len() == out@.len() + 1,
            forall|k: int|
                0 <= k < out@.len() ==> #[trigger] out@[k]@ == split(
                    s@.subrange(0, i as int),
                    d,
                )[k],
            split(s@.subrange(0, i as int), d).last() == s@.subrange(start as int, i as int),
        decreases n - i,
    {
        let c = s.get_char(i);
        let ghost prev = s@.subrange(0, i as int);
        let ghost next = s@.subrange(0, i + 1);
        assert(next.drop_last() =~= prev);
        assert(next.last() == c);
        if c == d {
            let piece = s.substring_char(start, i).to_owned();
            out.push(piece);
            start = i + 1;
            assert(s@.subrange(start as int, i + 1) =~= Seq::<char>::empty());
        } else {
            assert(s@.subrange(start as int, i + 1) =~= s@.subrange(start as int, i as int).push(c));
        }
        i += 1;
    }
    let piece = s.substring_char(start, n).to_owned();
    out.push(piece);
    assert(s@.subrange(0, n as int) =~= s@);
    out
}

/// Whether two strings hold the same characters.
pub fn str_equal(a: &str, b: &str) -> (r: bool)
    ensures
        r == (a@ == b@),
{
    let n = a.unicode_len();
    if n != b.unicode_len() {
        return false;
    }
    let mut i: usize = 0;
    while i < n
        invariant
            n == a@.len(),
            n == b@.len(),
            i <= n,
            forall|k: int| 0 <= k < i ==> a@[k] == b@[k],
        decreases n - i,
    {
        if a.get_char(i) != b.get_char(i) {
            return false;
        }
        i += 1;
    }
    assert(a@ =~= b@);
    true
}

/// The trailing `HASH_SUFFIX_LEN` characters of a hex digest.
pub fn hash_suffix(hex: &str) -> (r: String)
    requires
        hex@.len() >= HASH_SUFFIX_LEN,
    ensures
        r@ == hex@.subrange(hex@.len() - HASH_SUFFIX_LEN, hex@.len() as int),
{
    let n = hex.unicode_len();
    hex.substring_char(n - HASH_SUFFIX_LEN, n).to_owned()
}

/// The name suffix of a content digest: its last seven lowercase hex digits.
pub fn digest_suffix(h: &blake3::Hash) -> (r: String)
    ensures
        r@ == digest_hex_of(*h).subrange(64 - HASH_SUFFIX_LEN, 64),
        r@.len() == HASH_SUFFIX_LEN,
        forall|k: int| 0 <= k < r@.len() ==> is_lower_hex(#[trigger] r@[k]),
        !r@.contains(DELIMITER),
{
    let hex = digest_hex(h);
    let r = hash_suffix(hex.as_str());
    assert forall|k: int| 0 <= k < r@.len() implies is_lower_hex(#[trigger] r@[k]) by {
        assert(r@[k] == hex@[k + 57]);
    }
    r
}

/// The name of the artifact of `job` made at `at` whose digest ends in `hash`.
pub open spec fn artifact_view(job: Seq<char>, at: Timestamp, hash: Seq<char>) -> NameView {
    NameView {
        prefix: artifact_prefix(),
        name: job,
        datatime: timestamp_chars(at),
        hash: hash,
        extension: artifact_extension(),
    }
}

/// An artifact name built from a job name and a hash suffix that are free of the
/// delimiter decodes back to the same fields.
pub proof fn lemma_artifact_round_trip(job: Seq<char>, at: Timestamp, hash: Seq<char>)
    requires
        !job.contains(DELIMITER),
        !hash.contains(DELIMITER),
    ensures
        decode(encode(artifact_view(job, at, hash))) == Ok::<NameView, NameError>(
            artifact_view(job, at, hash),
        ),
{
    reveal_strlit("backup");
    reveal_strlit(".tar.zst");
    let p = artifact_prefix();
    assert(!p.contains(DELIMITER)) by {
        assert forall|k: int| 0 <= k < p.len() implies p[k] != DELIMITER by {}
    }
    lemma_timestamp_no_delimiter(at);
    lemma_name_round_trip(artifact_view(job, at, hash));
}

impl CpsdFileName {
    /// The name under which the artifact of `job`, made at `at`, is uploaded.
    pub fn for_artifact(job: &str, at: &Timestamp, hash: &str) -> (r: CpsdFileName)
        ensures
            r@ == artifact_view(job@, *at, hash@),
    {
        proof {
            reveal_strlit("backup");
            reveal_strlit(".tar.zst");
        }
        CpsdFileName {
            prefix: "backup".to_owned(),
            name: job.to_owned(),
            datatime: at.to_compact(),
            hash: hash.to_owned(),
            extension: ".tar.zst".to_owned(),
        }
    }

    pub fn to_filename(&self) -> (r: String)
        ensures
            r@ == encode(self@),
    {
        let mut r = self.prefix.clone();
        let dash = "-";
        proof {
            reveal_strlit("-");
        }
        assert(dash@ =~= seq![DELIMITER]);
        r.append(dash);
        r.append(self.name.as_str());
        r.append(dash);
        r.append(self.datatime.as_str());
        r.append(dash);
        r.append(self.hash.as_str());
        r.append(self.extension.as_str());
        r
    }

    pub fn try_from_filename(s: &str) -> (r: Result<CpsdFileName, NameError>)
        ensures
            match r {
                Ok(v) => decode(s@) == Ok::<NameView, NameError>(v@),
                Err(e) => decode(s@) == Err::<NameView, NameError>(e),
            },
    {
        let ext = ".tar.zst";
        proof {
            reveal_strlit(".tar.zst");
        }
        let n = s.unicode_len();
        let m = ext.unicode_len();
        if n < m {
            return Err(NameError::BadExtension);
        }
        let tail = s.substring_char(n - m, n);
        if !str_equal(tail, ext) {
            return Err(NameError::BadExtension);
        }
        let body = s.substring_char(0, n - m);
        let fields = split_on(body, DELIMITER);
        if fields.len() != 4 {
            return Err(NameError::MalformedFields);
        }
        Ok(
            CpsdFileName {
                prefix: fields[0].clone(),
                name: fields[1].clone(),
                datatime: fields[2].clone(),
                hash: fields[3].clone(),
                extension: ext.to_owned(),
            },
        )
    }
}

} // verus!
