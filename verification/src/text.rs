//! Small operations on text that the other modules share.

use vstd::prelude::*;
use vstd::std_specs::iter::IteratorSpec;
use vstd::string::*;

verus! {

/// The character that stands for the digit `d`, for `d` below ten.
pub open spec fn digit_char(d: nat) -> char {
    if d == 0 {
        '0'
    } else if d == 1 {
        '1'
    } else if d == 2 {
        '2'
    } else if d == 3 {
        '3'
    } else if d == 4 {
        '4'
    } else if d == 5 {
        '5'
    } else if d == 6 {
        '6'
    } else if d == 7 {
        '7'
    } else if d == 8 {
        '8'
    } else {
        '9'
    }
}

/// The decimal numeral of `n`, without leading zeros.
pub open spec fn decimal_digits(n: nat) -> Seq<char>
    decreases n,
{
    if n < 10 {
        seq![digit_char(n)]
    } else {
        decimal_digits(n / 10).push(digit_char(n % 10))
    }
}

/// `base`, a slash, then `name`.
pub open spec fn joined(base: Seq<char>, name: Seq<char>) -> Seq<char> {
    base + seq!['/'] + name
}

/// The position just behind the last slash of `path`, or zero where it has none.
pub open spec fn last_component_start(path: Seq<char>) -> int
    decreases path.len(),
{
    if path.len() == 0 {
        0
    } else if path.last() == '/' {
        path.len() as int
    } else {
        last_component_start(path.drop_last())
    }
}

/// What follows the last slash of `path`; the whole of it where it has none.
pub open spec fn last_component(path: Seq<char>) -> Seq<char> {
    path.subrange(last_component_start(path), path.len() as int)
}

/// The last component of a path holds no slash, and a slash stands before
/// it unless it begins the path.
pub proof fn lemma_last_component_start_bounds(path: Seq<char>)
    ensures
        0 <= last_component_start(path) <= path.len(),
        forall|k: int| last_component_start(path) <= k < path.len() ==> path[k] != '/',
        last_component_start(path) > 0 ==> path[last_component_start(path) - 1] == '/',
    decreases path.len(),
{
    if path.len() != 0 && path.last() != '/' {
        let shorter = path.drop_last();
        lemma_last_component_start_bounds(shorter);
        assert forall|k: int| last_component_start(path) <= k < path.len() implies path[k]
            != '/' by {
            if k < shorter.len() {
                assert(shorter[k] == path[k]);
            }
        }
        if last_component_start(path) > 0 {
            assert(shorter[last_component_start(path) - 1] == path[last_component_start(path) - 1]);
        }
    }
}

/// The last component of a path that was joined from a folder and a name
/// without a slash is that name.
pub proof fn lemma_last_component_of_joined(base: Seq<char>, name: Seq<char>)
    requires
        !name.contains('/'),
    ensures
        last_component(joined(base, name)) == name,
        last_component_start(joined(base, name)) == base.len() + 1,
    decreases name.len(),
{
    let path = joined(base, name);
    if name.len() == 0 {
        assert(path.last() == '/');
        assert(last_component(path) =~= name);
    } else {
        let shorter = name.drop_last();
        assert(name[name.len() - 1] != '/');
        assert(path.last() == name.last());
        assert(path.drop_last() =~= joined(base, shorter));
        assert(!shorter.contains('/')) by {
            if shorter.contains('/') {
                let k = choose|k: int| 0 <= k < shorter.len() && shorter[k] == '/';
                assert(name[k] == '/');
            }
        }
        lemma_last_component_of_joined(base, shorter);
        assert(last_component(path) =~= name);
    }
}

/// The characters of `text`, one by one.
pub fn chars_of(text: &str) -> (r: Vec<char>)
    ensures
        r@ == text@,
{
    broadcast use vstd::string::group_string_axioms;

    let mut rest = text.chars();
    let mut r: Vec<char> = Vec::new();
    loop
        invariant
            rest.obeys_prophetic_iter_laws(),
            rest.decrease() is Some,
            r@ + rest.remaining() == text@,
        decreases rest.decrease()->0,
    {
        match rest.next() {
            Some(c) => {
                r.push(c);
                assert(r@ + rest.remaining() =~= text@);
            },
            None => {
                assert(r@ =~= text@);
                return r;
            },
        }
    }
}

/// Whether `text` begins with `prefix`.
pub fn starts_with(text: &str, prefix: &str) -> (r: bool)
    ensures
        r == prefix@.is_prefix_of(text@),
{
    let whole = chars_of(text);
    let part = chars_of(prefix);
    if part.len() > whole.len() {
        return false;
    }
    let mut i: usize = 0;
    while i < part.len()
        invariant
            whole@ == text@,
            part@ == prefix@,
            part@.len() <= whole@.len(),
            i <= part@.len(),
            forall|k: int| 0 <= k < i ==> whole@[k] == part@[k],
        decreases part@.len() - i,
    {
        if whole[i] != part[i] {
            assert(text@.subrange(0, prefix@.len() as int)[i as int] != prefix@[i as int]);
            return false;
        }
        i += 1;
    }
    assert(prefix@ =~= text@.subrange(0, prefix@.len() as int));
    true
}

/// Whether `text` ends with `suffix`.
pub fn ends_with(text: &str, suffix: &str) -> (r: bool)
    ensures
        r == suffix@.is_suffix_of(text@),
{
    let whole = chars_of(text);
    let part = chars_of(suffix);
    if part.len() > whole.len() {
        return false;
    }
    let offset: usize = whole.len() - part.len();
    let mut i: usize = 0;
    while i < part.len()
        invariant
            whole@ == text@,
            part@ == suffix@,
            part@.len() <= whole@.len(),
            offset == whole@.len() - part@.len(),
            whole@.len() <= usize::MAX,
            i <= part@.len(),
            forall|k: int| 0 <= k < i ==> whole@[offset + k] == part@[k],
        decreases part@.len() - i,
    {
        if whole[offset + i] != part[i] {
            assert(text@.subrange(offset as int, text@.len() as int)[i as int]
                != suffix@[i as int]);
            return false;
        }
        i += 1;
    }
    assert(suffix@ =~= text@.subrange(offset as int, text@.len() as int));
    true
}

/// The text of one decimal digit.
fn digit_text(d: u64) -> (r: &'static str)
    requires
        d < 10,
    ensures
        r@ == seq![digit_char(d as nat)],
{
    proof {
        reveal_strlit("0");
        reveal_strlit("1");
        reveal_strlit("2");
        reveal_strlit("3");
        reveal_strlit("4");
        reveal_strlit("5");
        reveal_strlit("6");
        reveal_strlit("7");
        reveal_strlit("8");
        reveal_strlit("9");
    }
    let r = if d == 0 {
        "0"
    } else if d == 1 {
        "1"
    } else if d == 2 {
        "2"
    } else if d == 3 {
        "3"
    } else if d == 4 {
        "4"
    } else if d == 5 {
        "5"
    } else if d == 6 {
        "6"
    } else if d == 7 {
        "7"
    } else if d == 8 {
        "8"
    } else {
        "9"
    };
    assert(r@ =~= seq![digit_char(d as nat)]);
    r
}

/// Writes `n` in decimal, without leading zeros.
pub fn decimal(n: u64) -> (r: String)
    ensures
        r@ == decimal_digits(n as nat),
    decreases n,
{
    if n < 10 {
        String::from_str(digit_text(n))
    } else {
        let mut r = decimal(n / 10);
        r.append(digit_text(n % 10));
        assert(r@ =~= decimal_digits((n / 10) as nat).push(digit_char((n % 10) as nat)));
        r
    }
}

/// Appends `name` to `base` as a path component.
pub fn join_path(base: &str, name: &str) -> (r: String)
    ensures
        r@ == joined(base@, name@),
{
    proof {
        reveal_strlit("/");
    }
    let mut r = String::from_str(base);
    r.append("/");
    r.append(name);
    assert(r@ =~= joined(base@, name@));
    r
}

/// The last component of a slash-separated path: the name of the folder or
/// file that the path leads to.
pub fn file_name(path: &str) -> (r: String)
    ensures
        r@ == last_component(path@),
{
    let chars = chars_of(path);
    let n: usize = chars.len();
    let mut start: usize = n;
    assert(path@.subrange(0, n as int) =~= path@);
    while start > 0 && chars[start - 1] != '/'
        invariant
            chars@ == path@,
            n == path@.len(),
            start <= n,
            last_component_start(path@) == last_component_start(path@.subrange(0, start as int)),
        decreases start,
    {
        proof {
            let head = path@.subrange(0, start as int);
            assert(head.last() == path@[start - 1]);
            assert(head.drop_last() =~= path@.subrange(0, start - 1));
        }
        start -= 1;
    }
    proof {
        let head = path@.subrange(0, start as int);
        if start > 0 {
            assert(head.last() == path@[start - 1]);
        }
    }
    String::from_str(path.substring_char(start, n))
}

/// Whether `a` comes before `b`, or is `b`, in the order of a dictionary
/// that goes by the characters' code points: the first character in which
/// the two differ decides, and a text comes before every longer text that
/// begins with it.
pub open spec fn text_le(a: Seq<char>, b: Seq<char>) -> bool
    decreases a.len(),
{
    if a.len() == 0 {
        true
    } else if b.len() == 0 {
        false
    } else if a[0] != b[0] {
        (a[0] as u32) < (b[0] as u32)
    } else {
        text_le(a.drop_first(), b.drop_first())
    }
}

/// Of two texts one comes before the other, or they are the same.
pub proof fn lemma_text_le_total(a: Seq<char>, b: Seq<char>)
    ensures
        text_le(a, b) || text_le(b, a),
    decreases a.len(),
{
    if a.len() > 0 && b.len() > 0 {
        if a[0] == b[0] {
            lemma_text_le_total(a.drop_first(), b.drop_first());
        } else {
            vstd::utf8::char_u32_cast(a[0], a[0] as u32);
            vstd::utf8::char_u32_cast(b[0], b[0] as u32);
        }
    }
}

/// Two texts of which each comes before the other, or is it, are the same
/// text.
pub proof fn lemma_text_le_antisymmetric(a: Seq<char>, b: Seq<char>)
    requires
        text_le(a, b),
        text_le(b, a),
    ensures
        a == b,
    decreases a.len(),
{
    if a.len() > 0 && b.len() > 0 {
        if a[0] == b[0] {
            lemma_text_le_antisymmetric(a.drop_first(), b.drop_first());
            assert(a =~= seq![a[0]] + a.drop_first());
            assert(b =~= seq![b[0]] + b.drop_first());
        }
    } else {
        assert(a =~= b);
    }
}

/// What comes before a text comes before every text behind that one.
pub proof fn lemma_text_le_transitive(a: Seq<char>, b: Seq<char>, c: Seq<char>)
    requires
        text_le(a, b),
        text_le(b, c),
    ensures
        text_le(a, c),
    decreases a.len(),
{
    if a.len() > 0 && b.len() > 0 && c.len() > 0 && a[0] == b[0] && b[0] == c[0] {
        lemma_text_le_transitive(a.drop_first(), b.drop_first(), c.drop_first());
    }
}

/// Whether `a` comes before `b`, or is `b`, in the order of `text_le`.
pub fn text_at_most(a: &str, b: &str) -> (r: bool)
    ensures
        r == text_le(a@, b@),
{
    let x = chars_of(a);
    let y = chars_of(b);
    let mut i: usize = 0;
    assert(a@.skip(0) =~= a@);
    assert(b@.skip(0) =~= b@);
    loop
        invariant
            x@ == a@,
            y@ == b@,
            i <= x@.len(),
            i <= y@.len(),
            text_le(a@, b@) == text_le(a@.skip(i as int), b@.skip(i as int)),
        decreases x@.len() - i,
    {
        if i >= x.len() {
            return true;
        }
        if i >= y.len() {
            return false;
        }
        let left = x[i];
        let right = y[i];
        if left != right {
            proof {
                assert(a@.skip(i as int)[0] == left);
                assert(b@.skip(i as int)[0] == right);
                assert(a@.skip(i as int).len() > 0 && b@.skip(i as int).len() > 0);
            }
            return (left as u32) < (right as u32);
        }
        proof {
            assert(a@.skip(i as int).drop_first() =~= a@.skip(i + 1));
            assert(b@.skip(i as int).drop_first() =~= b@.skip(i + 1));
        }
        i += 1;
    }
}

} // verus!
