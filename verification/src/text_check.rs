use vstd::prelude::*;

verus! {

/// The characters with the Unicode property White_Space, which `char::is_whitespace`
/// accepts.
pub open spec fn is_white_space(c: char) -> bool {
    let v = c as u32;
    ||| 9 <= v <= 13
    ||| v == 32
    ||| v == 0x85
    ||| v == 0xA0
    ||| v == 0x1680
    ||| 0x2000 <= v <= 0x200A
    ||| v == 0x2028
    ||| v == 0x2029
    ||| v == 0x202F
    ||| v == 0x205F
    ||| v == 0x3000
}

fn white_space(c: char) -> (r: bool)
    ensures
        r == is_white_space(c),
{
    let v = c as u32;
    (9 <= v && v <= 13) || v == 32 || v == 0x85 || v == 0xA0 || v == 0x1680 || (0x2000 <= v && v
        <= 0x200A) || v == 0x2028 || v == 0x2029 || v == 0x202F || v == 0x205F || v == 0x3000
}

/// A text of white space only: what `str::trim` leaves empty.
pub open spec fn blank(s: Seq<char>) -> bool {
    forall|i: int| 0 <= i < s.len() ==> is_white_space(#[trigger] s[i])
}

/// Whether a text holds nothing but white space, as `blank` says.
pub fn is_blank(string: &str) -> (r: bool)
    ensures
        r == blank(string@),
{
    broadcast use vstd::string::axiom_spec_iter;
    let mut blank = true;
    for c in it: string.chars()
        invariant
            it.seq() == string@,
            blank == forall|j: int| 0 <= j < it.index() ==> is_white_space(#[trigger] string@[j]),
    {
        if !white_space(c) {
            blank = false;
        }
    }
    blank
}

} // verus!
