use sha2::Digest;
use vstd::prelude::*;
use vstd::string::StrSliceExecFns;
use vstd::string::StringExecFns;

use crate::display::{byte_hex, hex_digit};

verus! {

/// What is known of the file on view: its name, content, SHA-256 digest in
/// hex and the type that the system reports for it.
pub struct FileInfo {
    pub name: String,
    pub sha256: String,
    pub content: Vec<u8>,
    pub size: usize,
    pub filetype: String,
}

/// The SHA-256 digest of `data`.
pub uninterp spec fn sha256_of(data: Seq<u8>) -> Seq<u8>;

/// Relies on sha2's `Sha256::digest`: the SHA-256 digest of the data, which is
/// 32 bytes long.
#[verifier::external_body]
fn sha256_digest(data: &[u8]) -> (r: Vec<u8>)
    ensures
        r@ == sha256_of(data@),
        r@.len() == 32,
{
    sha2::Sha256::digest(data).to_vec()
}

/// Bytes as lower-case hex, two digits a byte.
pub open spec fn hex_bytes_lower(bytes: Seq<u8>) -> Seq<char>
    decreases bytes.len(),
{
    if bytes.len() == 0 {
        seq![]
    } else {
        hex_bytes_lower(bytes.drop_last()) + byte_hex(bytes.last(), false)
    }
}

/// `v` in decimal, without leading zeros (`"0"` for zero).
pub open spec fn decimal(v: nat) -> Seq<char>
    decreases v,
{
    if v < 10 {
        seq![(48 + v) as char]
    } else {
        decimal(v / 10).push((48 + v % 10) as char)
    }
}

/// Unicode's White_Space property.
pub open spec fn is_white_space(c: char) -> bool {
    let u = c as int;
    ||| 0x09 <= u <= 0x0d
    ||| u == 0x20
    ||| u == 0x85
    ||| u == 0xa0
    ||| u == 0x1680
    ||| 0x2000 <= u <= 0x200a
    ||| u == 0x2028
    ||| u == 0x2029
    ||| u == 0x202f
    ||| u == 0x205f
    ||| u == 0x3000
}

/// `s` without its leading White_Space characters.
pub open spec fn trim_start(s: Seq<char>) -> Seq<char>
    decreases s.len(),
{
    if s.len() > 0 && is_white_space(s[0]) {
        trim_start(s.drop_first())
    } else {
        s
    }
}

/// `s` without its trailing White_Space characters.
pub open spec fn trim_end(s: Seq<char>) -> Seq<char>
    decreases s.len(),
{
    if s.len() > 0 && is_white_space(s.last()) {
        trim_end(s.drop_last())
    } else {
        s
    }
}

/// `s` without leading and trailing White_Space characters.
pub open spec fn trimmed(s: Seq<char>) -> Seq<char> {
    trim_end(trim_start(s))
}

/// Relies on `str::trim`: the slice without leading and trailing characters of
/// Unicode's White_Space property.
#[verifier::external_body]
fn trim(s: &str) -> (r: &str)
    ensures
        r@ == trimmed(s@),
{
    s.trim()
}

/// Whether `": "` starts at index `i` of `s`.
pub open spec fn is_separator_at(s: Seq<char>, i: int) -> bool {
    0 <= i && i + 1 < s.len() && s[i] == ':' && s[i + 1] == ' '
}

/// Whether the first `": "` of `s` starts at index `i`.
pub open spec fn is_first_separator(s: Seq<char>, i: int) -> bool {
    is_separator_at(s, i) && forall|j: int| 0 <= j < i ==> !is_separator_at(s, j)
}

/// The file type in a line `<path>: <type>` as the `file` command prints it:
/// what follows the first `": "`, trimmed; empty when there is no `": "`.
pub fn filetype_from_output(out: &str) -> (r: String)
    ensures
        (forall|i: int| !is_separator_at(out@, i)) ==> r@ == Seq::<char>::empty(),
        forall|i: int|
            is_first_separator(out@, i) ==> r@ == trimmed(
                #[trigger] out@.subrange(i + 2, out@.len() as int),
            ),
{
    let n = out.unicode_len();
    let mut i: usize = 0;
    while i < n
        invariant
            n == out@.len(),
            i <= n,
            forall|j: int| 0 <= j < i ==> !is_separator_at(out@, j),
        decreases n - i,
    {
        if i + 1 < n && out.get_char(i) == ':' && out.get_char(i + 1) == ' ' {
            let rest = out.substring_char(i + 2, n);
            let r = String::from_str(trim(rest));
            assert(is_separator_at(out@, i as int));
            assert forall|k: int| is_first_separator(out@, k) implies k == i by {
                if k > i {
                    assert(!is_separator_at(out@, i as int));
                }
            }
            return r;
        }
        i = i + 1;
    }
    String::new()
}

/// Lower-case hex text of a SHA-256 digest.
pub fn digest_to_hex(digest: &[u8]) -> (r: String)
    ensures
        r@ == hex_bytes_lower(digest@),
{
    let mut s = String::new();
    let mut i: usize = 0;
    while i < digest.len()
        invariant
            i <= digest@.len(),
            s@ == hex_bytes_lower(digest@.subrange(0, i as int)),
        decreases digest.len() - i,
    {
        let b = digest[i];
        s.push(hex_digit(b / 16, false));
        s.push(hex_digit(b % 16, false));
        assert(digest@.subrange(0, i + 1).drop_last() =~= digest@.subrange(0, i as int));
        assert(s@ =~= hex_bytes_lower(digest@.subrange(0, i + 1)));
        i = i + 1;
    }
    assert(digest@.subrange(0, digest@.len() as int) =~= digest@);
    s
}

/// The SHA-256 digest of `content` as lower-case hex.
pub fn calc_sha256(content: &[u8]) -> (r: String)
    ensures
        r@ == hex_bytes_lower(sha256_of(content@)),
{
    let digest = sha256_digest(content);
    digest_to_hex(digest.as_slice())
}

/// Appends `v` in decimal.
fn push_decimal(s: &mut String, v: usize)
    ensures
        final(s)@ == old(s)@ + decimal(v as nat),
    decreases v,
{
    if v >= 10 {
        push_decimal(s, v / 10);
    }
    s.push(((v % 10) as u8 + 48) as char);
    assert(final(s)@ =~= old(s)@ + decimal(v as nat));
}

impl FileInfo {
    /// The size field is the length of the content.
    pub open spec fn wf(&self) -> bool {
        self.size == self.content@.len()
    }

    /// Information on a file named `name` that holds `content`, of the type
    /// `filetype`; the digest is computed here.
    pub fn new(name: String, content: Vec<u8>, filetype: String) -> (r: FileInfo)
        ensures
            r.wf(),
            r.name == name,
            r.content@ == content@,
            r.filetype == filetype,
            r.sha256@ == hex_bytes_lower(sha256_of(content@)),
    {
        let sha256 = calc_sha256(content.as_slice());
        let size = content.len();
        FileInfo { name, sha256, content, size, filetype }
    }

    /// The lines of the file-details dialog: name, size in bytes, type and
    /// SHA-256 digest.
    pub fn to_text(&self) -> (r: Vec<String>)
        ensures
            r@.len() == 4,
            r@[0]@ == "name:   "@ + self.name@,
            r@[1]@ == "size:   "@ + decimal(self.size as nat) + " bytes"@,
            r@[2]@ == "type:   "@ + self.filetype@,
            r@[3]@ == "sha256: "@ + self.sha256@,
    {
        let mut lines: Vec<String> = Vec::new();
        lines.push(String::from_str("name:   ").concat(self.name.as_str()));
        let mut size = String::from_str("size:   ");
        push_decimal(&mut size, self.size);
        size.append(" bytes");
        lines.push(size);
        lines.push(String::from_str("type:   ").concat(self.filetype.as_str()));
        lines.push(String::from_str("sha256: ").concat(self.sha256.as_str()));
        lines
    }
}

impl Default for FileInfo {
    fn default() -> (r: FileInfo)
        ensures
            r.wf(),
            r.name@.len() == 0,
            r.sha256@.len() == 0,
            r.content@.len() == 0,
            r.filetype@.len() == 0,
    {
        FileInfo {
            name: String::new(),
            sha256: String::new(),
            content: Vec::new(),
            size: 0,
            filetype: String::new(),
        }
    }
}

} // verus!
