use vstd::prelude::*;
use vstd::string::*;
use vstd::utf8::*;

verus! {

/// Numeric code of an error raised while parsing a pattern.
pub const ERROR_PATTERN_SYNTAX: i32 = -1000;

/// Numeric code of a pattern that compiled to a program beyond the size limit.
pub const ERROR_PATTERN_TOO_BIG: i32 = -5;

/// Numeric code of an argument outside its valid range.
pub const ERROR_INVALID_ARGUMENT: i32 = -30;

/// Longest diagnostic text, in bytes, that an error carries.
pub const MAX_ERROR_MESSAGE_LEN: usize = 90;

/// The kinds of failure that the library reports as values.
#[derive(Clone, Copy, Debug, PartialEq, Eq, Structural)]
pub enum ErrorKind {
    /// The pattern could not be compiled.
    Compile,
    /// The engine ran out of a resource while building something.
    Resource,
    /// An index or range given by the caller is out of bounds.
    OutOfRange,
    /// An option or syntax that the engine cannot honour.
    Unsupported,
}

/// An error: its kind, a numeric code and a bounded diagnostic text.
#[derive(Debug)]
pub struct Error {
    kind: ErrorKind,
    code: i32,
    description: String,
}

impl Error {
    #[verifier::type_invariant]
    spec fn inv(&self) -> bool {
        encode_utf8(self.description@).len() <= MAX_ERROR_MESSAGE_LEN
    }

    pub closed spec fn kind_spec(&self) -> ErrorKind {
        self.kind
    }

    pub closed spec fn code_spec(&self) -> i32 {
        self.code
    }

    pub closed spec fn description_spec(&self) -> Seq<char> {
        self.description@
    }

    /// Builds an error; the text is cut to at most `MAX_ERROR_MESSAGE_LEN`
    /// bytes, at a character boundary.
    pub fn new(kind: ErrorKind, code: i32, description: &str) -> (r: Error)
        ensures
            r.kind_spec() == kind,
            r.code_spec() == code,
            r.description_spec() == bounded_message(description),
    {
        let text = bound_message(description);
        Error { kind, code, description: text.to_string() }
    }

    /// The kind of the error.
    pub fn kind(&self) -> (r: ErrorKind)
        ensures
            r == self.kind_spec(),
    {
        self.kind
    }

    /// The numeric code of the error.
    pub fn code(&self) -> (r: i32)
        ensures
            r == self.code_spec(),
    {
        self.code
    }

    /// The diagnostic text of the error.
    pub fn description(&self) -> (r: &str)
        ensures
            r@ == self.description_spec(),
            r.spec_bytes().len() <= MAX_ERROR_MESSAGE_LEN,
    {
        proof {
            use_type_invariant(self);
        }
        self.description.as_str()
    }

    /// The error rendered as one line of text.
    pub fn to_string(&self) -> (r: String)
        ensures
            r@ == self.description_spec(),
    {
        self.description.clone()
    }
}

/// The largest character boundary of `bytes` that is at most `limit`.
pub open spec fn boundary_at_most(bytes: Seq<u8>, limit: int) -> int
    decreases limit,
{
    if limit <= 0 {
        0
    } else if limit <= bytes.len() && is_char_boundary(bytes, limit) {
        limit
    } else {
        boundary_at_most(bytes, limit - 1)
    }
}

/// The longest prefix of `s` that fits in `MAX_ERROR_MESSAGE_LEN` bytes and
/// ends at a character boundary, as characters.
pub open spec fn bounded_message(s: &str) -> Seq<char> {
    decode_utf8(s.spec_bytes().subrange(0, boundary_at_most(s.spec_bytes(), MAX_ERROR_MESSAGE_LEN as int)))
}

proof fn lemma_boundary_at_most(bytes: Seq<u8>, limit: int)
    requires
        valid_utf8(bytes),
    ensures
        0 <= boundary_at_most(bytes, limit),
        boundary_at_most(bytes, limit) <= bytes.len(),
        limit >= 0 ==> boundary_at_most(bytes, limit) <= limit,
        is_char_boundary(bytes, boundary_at_most(bytes, limit)),
    decreases limit,
{
    if limit > 0 && !(limit <= bytes.len() && is_char_boundary(bytes, limit)) {
        lemma_boundary_at_most(bytes, limit - 1);
    }
}

proof fn lemma_boundary_above_len(bytes: Seq<u8>, limit: int)
    requires
        limit >= bytes.len(),
    ensures
        boundary_at_most(bytes, limit) == boundary_at_most(bytes, bytes.len() as int),
    decreases limit,
{
    if limit > bytes.len() {
        lemma_boundary_above_len(bytes, limit - 1);
    }
}

fn bound_message(s: &str) -> (r: &str)
    ensures
        r@ == bounded_message(s),
        r.spec_bytes().len() <= MAX_ERROR_MESSAGE_LEN,
{
    proof {
        encode_utf8_valid_utf8(s@);
        encode_utf8_decode_utf8(s@);
        lemma_boundary_at_most(s.spec_bytes(), MAX_ERROR_MESSAGE_LEN as int);
        if s.spec_bytes().len() < MAX_ERROR_MESSAGE_LEN {
            lemma_boundary_above_len(s.spec_bytes(), MAX_ERROR_MESSAGE_LEN as int);
        }
    }
    let len = s.as_bytes().len();
    let mut cut: usize = if len < MAX_ERROR_MESSAGE_LEN { len } else { MAX_ERROR_MESSAGE_LEN };
    assert(len as int == s.spec_bytes().len());
    while cut > 0 && !s.is_char_boundary(cut)
        invariant
            cut <= s.spec_bytes().len(),
            cut <= MAX_ERROR_MESSAGE_LEN,
            valid_utf8(s.spec_bytes()),
            boundary_at_most(s.spec_bytes(), cut as int) == boundary_at_most(
                s.spec_bytes(),
                MAX_ERROR_MESSAGE_LEN as int,
            ),
        decreases cut,
    {
        cut = cut - 1;
    }
    proof {
        is_char_boundary_start_end_of_seq(s.spec_bytes());
    }
    let (head, _) = s.split_at(cut);
    proof {
        valid_utf8_split(s.spec_bytes(), cut as int);
        decode_utf8_encode_utf8(head.spec_bytes());
        encode_utf8_decode_utf8(head@);
    }
    head
}

} // verus!
