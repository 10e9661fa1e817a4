use vstd::prelude::*;
use vstd::string::StrSliceExecFns;
use vstd::string::StringExecFns;

verus! {

pub open spec fn is_json_ws(c: char) -> bool {
    c == ' ' || c == '\t' || c == '\n' || c == '\r'
}

/// The characters of `s` that are not JSON whitespace.
pub open spec fn without_ws(s: Seq<char>) -> Seq<char> {
    s.filter(|c: char| !is_json_ws(c))
}

/// `s` is the JSON text of an empty object.
pub open spec fn is_empty_object_text(s: Seq<char>) -> bool {
    without_ws(s) == seq!['{', '}']
}

/// Whether `s` is the JSON text of an empty object (`{}` with any
/// whitespace around its tokens).
pub fn is_empty_json_object(s: &str) -> (r: bool)
    ensures
        r == is_empty_object_text(s@),
{
    let n = s.unicode_len();
    let mut kept: Vec<char> = Vec::new();
    let mut i: usize = 0;
    while i < n
        invariant
            n == s@.len(),
            i <= n,
            kept@ == s@.take(i as int).filter(|c: char| !is_json_ws(c)),
        decreases n - i,
    {
        let c = s.get_char(i);
        proof {
            assert(s@.take(i + 1) == s@.take(i as int).push(c));
            s@.take(i as int).lemma_filter_push(c, |c: char| !is_json_ws(c));
        }
        if !(c == ' ' || c == '\t' || c == '\n' || c == '\r') {
            kept.push(c);
        }
        i = i + 1;
    }
    assert(s@.take(i as int) == s@);
    if kept.len() == 2 && kept[0] == '{' && kept[1] == '}' {
        assert(kept@ == seq!['{', '}']);
        true
    } else {
        assert(kept@.len() != 2 || kept@[0] != '{' || kept@[1] != '}');
        false
    }
}

/// The code point of `c`, with ASCII upper case letters lowered.
pub open spec fn ascii_lower(c: char) -> u32 {
    let v = c as u32;
    if 65 <= v && v <= 90 {
        (v + 32) as u32
    } else {
        v
    }
}

pub open spec fn eq_ascii_case(a: Seq<char>, b: Seq<char>) -> bool {
    a.len() == b.len() && forall|i: int| 0 <= i < a.len() ==> ascii_lower(#[trigger] a[i]) == ascii_lower(b[i])
}

/// Whether `a` and `b` are equal up to ASCII case.
pub fn eq_ignore_ascii_case(a: &str, b: &str) -> (r: bool)
    ensures
        r == eq_ascii_case(a@, b@),
{
    let n = a.unicode_len();
    if n != b.unicode_len() {
        return false;
    }
    let mut i: usize = 0;
    while i < n
        invariant
            n == a@.len(),
            n == b@.len(),
            i <= n,
            forall|j: int| 0 <= j < i ==> ascii_lower(#[trigger] a@[j]) == ascii_lower(b@[j]),
        decreases n - i,
    {
        let x = a.get_char(i);
        let y = b.get_char(i);
        let vx = x as u32;
        let vy = y as u32;
        let lx: u32 = if 65 <= vx && vx <= 90 { vx + 32 } else { vx };
        let ly: u32 = if 65 <= vy && vy <= 90 { vy + 32 } else { vy };
        if lx != ly {
            return false;
        }
        i = i + 1;
    }
    true
}

/// `a` followed by `b`.
pub fn join_text(a: &str, b: &str) -> (r: String)
    ensures
        r@ == a@ + b@,
{
    let mut s = a.to_owned();
    s.append(b);
    s
}

} // verus!
