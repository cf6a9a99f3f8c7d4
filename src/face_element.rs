//! One element of a face line of a Wavefront OBJ file:
//! `vertex[/[texture_coordinate]/[normal]]`, with 1-based indices.
use vstd::prelude::*;

verus! {

/// The indices of one corner of a face.
#[derive(Debug, Clone, Copy, PartialEq, Eq, Structural)]
pub struct FaceElement {
    pub vertex: usize,
    pub texture_coordinate: Option<usize>,
    pub normal: Option<usize>,
}

/// The field of a face element that is not an index.
#[derive(Debug, Clone, Copy, PartialEq, Eq, Structural)]
pub enum FaceElementError {
    Vertex,
    TextureCoordinate,
    Normal,
}

/// A face: its corners in order.
pub type Face = Vec<FaceElement>;

pub open spec fn is_digit(c: char) -> bool {
    '0' <= c && c <= '9'
}

pub open spec fn digit_value(c: char) -> nat {
    (c as u32 - '0' as u32) as nat
}

/// The number that a string of decimal digits denotes.
pub open spec fn digits_value(s: Seq<char>) -> nat
    decreases s.len(),
{
    if s.len() == 0 {
        0
    } else {
        digits_value(s.drop_last()) * 10 + digit_value(s.last())
    }
}

pub open spec fn all_digits(s: Seq<char>) -> bool {
    forall|i: int| 0 <= i < s.len() ==> is_digit(#[trigger] s[i])
}

/// The digits of an unsigned number, after an optional leading `+`.
pub open spec fn unsigned_body(s: Seq<char>) -> Seq<char> {
    if s.len() > 0 && s[0] == '+' {
        s.skip(1)
    } else {
        s
    }
}

/// The index that `s` denotes: an optional `+` and one or more decimal
/// digits whose value fits in `usize`; nothing else.
pub open spec fn parse_index(s: Seq<char>) -> Option<usize> {
    let body = unsigned_body(s);
    if body.len() > 0 && all_digits(body) && digits_value(body) <= usize::MAX {
        Some(digits_value(body) as usize)
    } else {
        None
    }
}

/// The position of the first `/` at or after `from`, or the length of `s`
/// when there is none.
pub open spec fn next_slash(s: Seq<char>, from: int) -> int
    decreases s.len() - from,
{
    if from >= s.len() {
        s.len() as int
    } else if s[from] == '/' {
        from
    } else {
        next_slash(s, from + 1)
    }
}

/// An optional index field: empty means absent.
pub open spec fn optional_index(s: Seq<char>) -> Option<Option<usize>> {
    if s.len() == 0 {
        Some(None)
    } else {
        match parse_index(s) {
            Some(v) => Some(Some(v)),
            None => None,
        }
    }
}

/// What a face element denotes. The text splits at each `/`. The first
/// field is the vertex. The texture coordinate and the normal are read only
/// when there are at least three fields, and each is absent when its field
/// is empty; fields after the third are ignored.
pub open spec fn face_element_of(s: Seq<char>) -> Result<FaceElement, FaceElementError> {
    let e0 = next_slash(s, 0);
    let e1 = next_slash(s, e0 + 1);
    let e2 = next_slash(s, e1 + 1);
    match parse_index(s.subrange(0, e0)) {
        None => Err(FaceElementError::Vertex),
        Some(vertex) => if e0 < s.len() && e1 < s.len() {
            match optional_index(s.subrange(e0 + 1, e1)) {
                None => Err(FaceElementError::TextureCoordinate),
                Some(texture_coordinate) => match optional_index(s.subrange(e1 + 1, e2)) {
                    None => Err(FaceElementError::Normal),
                    Some(normal) => Ok(FaceElement { vertex, texture_coordinate, normal }),
                },
            }
        } else {
            Ok(FaceElement { vertex, texture_coordinate: None, normal: None })
        },
    }
}

proof fn lemma_digits_value_grows(s: Seq<char>, j: int)
    requires
        0 <= j <= s.len(),
    ensures
        digits_value(s.subrange(0, j)) <= digits_value(s),
    decreases s.len() - j,
{
    if j < s.len() {
        lemma_digits_value_grows(s.drop_last(), j);
        assert(s.drop_last().subrange(0, j) =~= s.subrange(0, j));
    } else {
        assert(s.subrange(0, j) =~= s);
    }
}

fn find_slash(s: &str, len: usize, from: usize) -> (r: usize)
    requires
        len == s@.len(),
        from <= len,
    ensures
        r == next_slash(s@, from as int),
        from <= r <= len,
    decreases len - from,
{
    let mut i = from;
    while i < len
        invariant
            from <= i <= len,
            len == s@.len(),
            next_slash(s@, i as int) == next_slash(s@, from as int),
        decreases len - i,
    {
        if s.get_char(i) == '/' {
            return i;
        }
        i = i + 1;
    }
    i
}

/// The index that the characters `from .. to` of `s` denote.
fn parse_range(s: &str, from: usize, to: usize) -> (r: Option<usize>)
    requires
        from <= to <= s@.len(),
    ensures
        r == parse_index(s@.subrange(from as int, to as int)),
{
    let ghost t = s@.subrange(from as int, to as int);
    let mut start = from;
    if start < to && s.get_char(start) == '+' {
        start = start + 1;
    }
    let ghost body = s@.subrange(start as int, to as int);
    assert(body =~= unsigned_body(t));
    if start == to {
        return None;
    }
    let mut i = start;
    while i < to
        invariant
            start <= i <= to <= s@.len(),
            body == s@.subrange(start as int, to as int),
            unsigned_body(t) == body,
            t == s@.subrange(from as int, to as int),
            all_digits(s@.subrange(start as int, i as int)),
        decreases to - i,
    {
        let c = s.get_char(i);
        if !('0' <= c && c <= '9') {
            assert(body[i - start] == c);
            assert(!all_digits(body));
            assert(unsigned_body(t) == body);
            return None;
        }
        i = i + 1;
        assert(s@.subrange(start as int, i as int) =~= s@.subrange(start as int, i - 1).push(c));
    }
    assert(s@.subrange(start as int, to as int) =~= body);
    let mut value: usize = 0;
    let mut i = start;
    while i < to
        invariant
            start <= i <= to <= s@.len(),
            body == s@.subrange(start as int, to as int),
            all_digits(body),
            unsigned_body(t) == body,
            t == s@.subrange(from as int, to as int),
            value == digits_value(s@.subrange(start as int, i as int)),
        decreases to - i,
    {
        let c = s.get_char(i);
        assert(body[i - start] == c);
        let d = (c as u32 - '0' as u32) as usize;
        let ghost next = s@.subrange(start as int, i + 1);
        assert(next.drop_last() =~= s@.subrange(start as int, i as int));
        assert(body.subrange(0, i + 1 - start) =~= next);
        proof {
            lemma_digits_value_grows(body, i + 1 - start);
            assert(next.last() == c);
            assert(digits_value(next) == value * 10 + d);
            assert(unsigned_body(t) == body);
        }
        match value.checked_mul(10) {
            None => {
                return None;
            },
            Some(m) => match m.checked_add(d) {
                None => {
                    return None;
                },
                Some(v) => {
                    value = v;
                },
            },
        }
        i = i + 1;
    }
    Some(value)
}

/// The index field `from .. to` of `s`, absent when empty.
fn parse_optional(s: &str, from: usize, to: usize) -> (r: Option<Option<usize>>)
    requires
        from <= to <= s@.len(),
    ensures
        r == optional_index(s@.subrange(from as int, to as int)),
{
    if from == to {
        Some(None)
    } else {
        match parse_range(s, from, to) {
            Some(v) => Some(Some(v)),
            None => None,
        }
    }
}

impl FaceElement {
    /// Reads one face element, `v`, `v/t/n`, `v//n` or `v/t/`.
    pub fn of_string(line: &str) -> (r: Result<FaceElement, FaceElementError>)
        ensures
            r == face_element_of(line@),
    {
        let len = line.unicode_len();
        let e0 = find_slash(line, len, 0);
        let vertex = match parse_range(line, 0, e0) {
            Some(v) => v,
            None => {
                return Err(FaceElementError::Vertex);
            },
        };
        if e0 == len {
            return Ok(FaceElement { vertex, texture_coordinate: None, normal: None });
        }
        let e1 = find_slash(line, len, e0 + 1);
        if e1 == len {
            return Ok(FaceElement { vertex, texture_coordinate: None, normal: None });
        }
        let e2 = find_slash(line, len, e1 + 1);
        let texture_coordinate = match parse_optional(line, e0 + 1, e1) {
            Some(t) => t,
            None => {
                return Err(FaceElementError::TextureCoordinate);
            },
        };
        let normal = match parse_optional(line, e1 + 1, e2) {
            Some(n) => n,
            None => {
                return Err(FaceElementError::Normal);
            },
        };
        Ok(FaceElement { vertex, texture_coordinate, normal })
    }
}

} // verus!
