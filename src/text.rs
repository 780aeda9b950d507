use vstd::prelude::*;

verus! {

/// The characters that Unicode classes as White_Space, which `str::trim` removes.
pub open spec fn is_white_space(c: char) -> bool {
    let u = c as u32;
    (0x9 <= u && u <= 0xD) || u == 0x20 || u == 0x85 || u == 0xA0 || u == 0x1680 || (0x2000 <= u
        && u <= 0x200A) || u == 0x2028 || u == 0x2029 || u == 0x202F || u == 0x205F || u == 0x3000
}

/// A text is blank when nothing is left of it once surrounding white space is trimmed.
pub open spec fn blank(s: Seq<char>) -> bool {
    forall|i: int| 0 <= i < s.len() ==> #[trigger] is_white_space(s[i])
}

/// The prefix that marks a branch in a git ref.
pub open spec fn heads_prefix() -> Seq<char> {
    seq!['r', 'e', 'f', 's', '/', 'h', 'e', 'a', 'd', 's', '/']
}

pub open spec fn starts_with_heads(s: Seq<char>) -> bool {
    s.len() >= heads_prefix().len() && s.subrange(0, heads_prefix().len() as int) == heads_prefix()
}

/// The branch named by a ref: one leading `refs/heads/` is removed; a ref
/// without that prefix names its branch verbatim.
pub open spec fn branch_name(r: Seq<char>) -> Seq<char> {
    if starts_with_heads(r) {
        r.subrange(heads_prefix().len() as int, r.len() as int)
    } else {
        r
    }
}

/// A ref that does not start with `refs/heads/` names its branch verbatim.
pub proof fn lemma_ref_without_prefix_is_branch(r: Seq<char>)
    requires
        !starts_with_heads(r),
    ensures
        branch_name(r) == r,
{
}

/// `refs/heads/` followed by any name names exactly that branch, even where the
/// name itself starts with `refs/heads/`.
pub proof fn lemma_heads_prefix_stripped(name: Seq<char>)
    ensures
        branch_name(heads_prefix() + name) == name,
{
    let r = heads_prefix() + name;
    assert(r.subrange(0, heads_prefix().len() as int) =~= heads_prefix());
    assert(r.subrange(heads_prefix().len() as int, r.len() as int) =~= name);
}

pub open spec fn digit_char(d: nat) -> char {
    seq!['0', '1', '2', '3', '4', '5', '6', '7', '8', '9'][d as int]
}

/// The decimal digits of a number, without sign or leading zeros.
pub open spec fn decimal(n: nat) -> Seq<char>
    decreases n,
{
    if n < 10 {
        seq![digit_char(n)]
    } else {
        decimal(n / 10) + seq![digit_char(n % 10)]
    }
}

pub fn is_white_space_char(c: char) -> (r: bool)
    ensures
        r == is_white_space(c),
{
    let u = c as u32;
    (0x9 <= u && u <= 0xD) || u == 0x20 || u == 0x85 || u == 0xA0 || u == 0x1680 || (0x2000 <= u
        && u <= 0x200A) || u == 0x2028 || u == 0x2029 || u == 0x202F || u == 0x205F || u == 0x3000
}

/// Whether `s.trim()` would be empty.
pub fn is_blank(s: &str) -> (r: bool)
    ensures
        r == blank(s@),
{
    let n = s.unicode_len();
    let mut i: usize = 0;
    while i < n
        invariant
            n == s@.len(),
            i <= n,
            forall|k: int| 0 <= k < i ==> #[trigger] is_white_space(s@[k]),
        decreases n - i,
    {
        if !is_white_space_char(s.get_char(i)) {
            return false;
        }
        i = i + 1;
    }
    true
}

/// Whether two texts hold the same characters.
pub fn same_text(a: &str, b: &str) -> (r: bool)
    ensures
        r == (a@ == b@),
{
    a.to_owned() == b.to_owned()
}

/// Relies on String::push: the character is appended at the end.
#[verifier::external_body]
pub(crate) fn push_char(s: &mut String, c: char)
    ensures
        final(s)@ == old(s)@.push(c),
{
    s.push(c);
}

/// The branch a ref string names: a leading `refs/heads/` is stripped once.
pub fn strip_heads(r: &str) -> (b: String)
    ensures
        b@ == branch_name(r@),
{
    let p = "refs/heads/";
    proof {
        reveal_strlit("refs/heads/");
        assert(p@ =~= heads_prefix());
    }
    let n = r.unicode_len();
    let m = p.unicode_len();
    if n < m {
        return r.to_owned();
    }
    let mut k: usize = 0;
    let mut same = true;
    while k < m && same
        invariant
            n == r@.len(),
            m == p@.len(),
            p@ == heads_prefix(),
            m <= n,
            k <= m,
            forall|j: int| 0 <= j < k ==> r@[j] == p@[j],
            !same ==> k < m && r@[k as int] != p@[k as int],
        decreases m - k, if same { 1int } else { 0int },
    {
        if r.get_char(k) != p.get_char(k) {
            same = false;
        } else {
            k = k + 1;
        }
    }
    if !same {
        proof {
            assert(r@.subrange(0, m as int)[k as int] != heads_prefix()[k as int]);
        }
        return r.to_owned();
    }
    proof {
        assert(r@.subrange(0, m as int) =~= heads_prefix());
    }
    let tail = r.substring_char(m, n);
    tail.to_owned()
}

fn digit(d: u32) -> (c: char)
    requires
        d < 10,
    ensures
        c == digit_char(d as nat),
{
    let digits: [char; 10] = ['0', '1', '2', '3', '4', '5', '6', '7', '8', '9'];
    proof {
        assert(digits@ =~= seq!['0', '1', '2', '3', '4', '5', '6', '7', '8', '9']);
    }
    digits[d as usize]
}

/// The decimal text of a number.
pub fn decimal_text(n: u32) -> (s: String)
    ensures
        s@ == decimal(n as nat),
    decreases n,
{
    if n < 10 {
        let mut s = String::new();
        push_char(&mut s, digit(n));
        proof {
            assert(s@ =~= decimal(n as nat));
        }
        s
    } else {
        let mut s = decimal_text(n / 10);
        push_char(&mut s, digit(n % 10));
        s
    }
}

} // verus!
