use vstd::prelude::*;
use crate::genome_data::ModeSettings;

verus! {

/// The text every generated name starts with.
pub open spec fn mode_prefix() -> Seq<char> {
    seq!['M', 'o', 'd', 'e', ' ']
}

pub open spec fn digit_char(d: int) -> char {
    if d == 0 {
        '0'
    } else if d == 1 {
        '1'
    } else if d == 2 {
        '2'
    } else if d == 3 {
        '3'
    } else if d == 4 {
        '4'
    } else if d == 5 {
        '5'
    } else if d == 6 {
        '6'
    } else if d == 7 {
        '7'
    } else if d == 8 {
        '8'
    } else {
        '9'
    }
}

/// The decimal digits of `n`, without leading zeros.
pub open spec fn decimal(n: nat) -> Seq<char>
    decreases n,
{
    if n < 10 {
        seq![digit_char(n as int)]
    } else {
        decimal(n / 10).push(digit_char((n % 10) as int))
    }
}

/// `n` written in decimal, with a leading minus sign when negative.
pub open spec fn signed_decimal(n: int) -> Seq<char> {
    if n < 0 {
        seq!['-'] + decimal((-n) as nat)
    } else {
        decimal(n as nat)
    }
}

pub open spec fn is_digit(c: char) -> bool {
    '0' <= c <= '9'
}

pub open spec fn digit_value(c: char) -> int {
    c as int - '0' as int
}

pub open spec fn all_digits(s: Seq<char>) -> bool {
    forall|i: int| 0 <= i < s.len() ==> is_digit(#[trigger] s[i])
}

/// The number that a run of decimal digits denotes.
pub open spec fn digits_value(s: Seq<char>) -> int
    decreases s.len(),
{
    if s.len() == 0 {
        0
    } else {
        digits_value(s.drop_last()) * 10 + digit_value(s.last())
    }
}

/// What reading `s` as an `i32` gives: an optional sign, then one or more
/// decimal digits, denoting a value in the range of `i32`.
pub open spec fn parse_i32_spec(s: Seq<char>) -> Option<int> {
    let negative = s.len() > 0 && s[0] == '-';
    let signed = s.len() > 0 && (s[0] == '-' || s[0] == '+');
    let body = if signed {
        s.skip(1)
    } else {
        s
    };
    let v = if negative {
        -digits_value(body)
    } else {
        digits_value(body)
    };
    if body.len() == 0 || !all_digits(body) || v < i32::MIN || v > i32::MAX {
        None
    } else {
        Some(v)
    }
}

/// Whether `c` is already used as a name or a default name in `modes`.
pub open spec fn name_taken<P>(modes: Seq<ModeSettings<P>>, c: Seq<char>) -> bool {
    exists|i: int|
        #![trigger modes[i]]
        0 <= i < modes.len() && (modes[i].name@ == c || modes[i].default_name@ == c)
}

pub open spec fn has_mode_prefix(s: Seq<char>) -> bool {
    s.len() >= 5 && s.subrange(0, 5) == mode_prefix()
}

/// The index of the last '.' in `s`, or -1 when it holds none.
pub open spec fn last_dot(s: Seq<char>) -> int
    decreases s.len(),
{
    if s.len() == 0 {
        -1
    } else if s.last() == '.' {
        s.len() - 1
    } else {
        last_dot(s.drop_last())
    }
}

/// `head` extended by one more level: `head.i`.
pub open spec fn sub_level(head: Seq<char>, i: int) -> Seq<char> {
    head + seq!['.'] + decimal(i as nat)
}

/// The first of `head.i`, `head.(i+1)`, ..., `head.99` that `modes` does not
/// use yet.
pub open spec fn first_free_sub_level<P>(modes: Seq<ModeSettings<P>>, head: Seq<char>, i: int) -> Option<
    Seq<char>,
>
    decreases 100 - i,
{
    if i >= 100 || i < 1 {
        None
    } else if !name_taken(modes, sub_level(head, i)) {
        Some(sub_level(head, i))
    } else {
        first_free_sub_level(modes, head, i + 1)
    }
}

/// The name next to a dotted number path at the same level: the last segment
/// incremented.
pub open spec fn next_sibling(path: Seq<char>, last: int) -> Seq<char> {
    let d = last_dot(path);
    if d == 0 {
        mode_prefix() + signed_decimal(last + 1)
    } else {
        mode_prefix() + path.subrange(0, d) + seq!['.'] + signed_decimal(last + 1)
    }
}

/// The name the hierarchical search settles on, if any.
pub open spec fn searched_mode_name<P>(base: Seq<char>, modes: Seq<ModeSettings<P>>) -> Option<Seq<char>> {
    if !has_mode_prefix(base) {
        None
    } else {
        let path = base.skip(5);
        if last_dot(path) >= 0 {
            let tail = path.skip(last_dot(path) + 1);
            let deeper = first_free_sub_level(modes, mode_prefix() + path, 1);
            match parse_i32_spec(tail) {
                Some(n) => if !name_taken(modes, next_sibling(path, n)) {
                    Some(next_sibling(path, n))
                } else {
                    deeper
                },
                None => deeper,
            }
        } else {
            match parse_i32_spec(path) {
                Some(b) => {
                    let next = mode_prefix() + signed_decimal(b + 1);
                    if !name_taken(modes, next) {
                        Some(next)
                    } else {
                        first_free_sub_level(modes, mode_prefix() + signed_decimal(b), 1)
                    }
                },
                None => None,
            }
        }
    }
}

/// The name given to a mode created after the mode whose default name is
/// `base`: the searched name, or else "Mode <number of modes>".
pub open spec fn next_mode_name<P>(base: Seq<char>, modes: Seq<ModeSettings<P>>) -> Seq<char> {
    match searched_mode_name(base, modes) {
        Some(n) => n,
        None => mode_prefix() + decimal(modes.len()),
    }
}

fn digit_str(d: u64) -> (r: &'static str)
    requires
        d < 10,
    ensures
        r@ == seq![digit_char(d as int)],
{
    proof {
        reveal_strlit("0");
        reveal_strlit("1");
        reveal_strlit("2");
        reveal_strlit("3");
        reveal_strlit("4");
        reveal_strlit("5");
        reveal_strlit("6");
        reveal_strlit("7");
        reveal_strlit("8");
        reveal_strlit("9");
    }
    let r = if d == 0 {
        "0"
    } else if d == 1 {
        "1"
    } else if d == 2 {
        "2"
    } else if d == 3 {
        "3"
    } else if d == 4 {
        "4"
    } else if d == 5 {
        "5"
    } else if d == 6 {
        "6"
    } else if d == 7 {
        "7"
    } else if d == 8 {
        "8"
    } else {
        "9"
    };
    assert(r@ =~= seq![digit_char(d as int)]);
    r
}

/// Appends the decimal digits of `n` to `s`.
pub(crate) fn append_decimal(s: &mut String, n: u64)
    ensures
        final(s)@ == old(s)@ + decimal(n as nat),
    decreases n,
{
    if n >= 10 {
        append_decimal(s, n / 10);
        s.append(digit_str(n % 10));
        assert(final(s)@ =~= old(s)@ + decimal(n as nat));
    } else {
        s.append(digit_str(n));
    }
}

/// Appends `n` in decimal, with a minus sign when negative.
fn append_signed(s: &mut String, n: i64)
    requires
        n > i64::MIN,
    ensures
        final(s)@ == old(s)@ + signed_decimal(n as int),
{
    if n < 0 {
        proof {
            reveal_strlit("-");
        }
        s.append("-");
        append_decimal(s, (0 - n) as u64);
        assert(final(s)@ =~= old(s)@ + signed_decimal(n as int));
    } else {
        append_decimal(s, n as u64);
    }
}

proof fn lemma_parse_rejects(s: Seq<char>, body: Seq<char>)
    requires
        body == (if s.len() > 0 && (s[0] == '-' || s[0] == '+') {
            s.skip(1)
        } else {
            s
        }),
        !all_digits(body) || digits_value(body) > 2147483648,
    ensures
        parse_i32_spec(s) is None,
{
}

/// The characters that `char::is_whitespace` accepts: those with the
/// Unicode White_Space property.
pub open spec fn is_white_space(c: char) -> bool {
    ('\u{9}' <= c <= '\u{d}') || c == ' ' || c == '\u{85}' || c == '\u{a0}' || c == '\u{1680}' || ('\u{2000}'
        <= c <= '\u{200a}') || c == '\u{2028}' || c == '\u{2029}' || c == '\u{202f}' || c == '\u{205f}'
        || c == '\u{3000}'
}

/// `s` without its leading white space.
pub open spec fn trim_front(s: Seq<char>) -> Seq<char>
    decreases s.len(),
{
    if s.len() > 0 && is_white_space(s[0]) {
        trim_front(s.skip(1))
    } else {
        s
    }
}

/// `s` without its trailing white space.
pub open spec fn trim_back(s: Seq<char>) -> Seq<char>
    decreases s.len(),
{
    if s.len() > 0 && is_white_space(s.last()) {
        trim_back(s.drop_last())
    } else {
        s
    }
}

/// `s` without leading and trailing white space.
pub open spec fn trimmed(s: Seq<char>) -> Seq<char> {
    trim_back(trim_front(s))
}

fn is_white_space_char(c: char) -> (r: bool)
    ensures
        r == is_white_space(c),
{
    ('\u{9}' <= c && c <= '\u{d}') || c == ' ' || c == '\u{85}' || c == '\u{a0}' || c == '\u{1680}' || ('\u{2000}'
        <= c && c <= '\u{200a}') || c == '\u{2028}' || c == '\u{2029}' || c == '\u{202f}' || c == '\u{205f}'
        || c == '\u{3000}'
}

/// `s` without leading and trailing white space.
pub fn trim(s: &str) -> (r: &str)
    ensures
        r@ == trimmed(s@),
{
    let n = s.unicode_len();
    let mut lo: usize = 0;
    assert(s@.subrange(0, n as int) =~= s@);
    while lo < n && is_white_space_char(s.get_char(lo))
        invariant
            lo <= n == s@.len(),
            trim_front(s@) == trim_front(s@.subrange(lo as int, n as int)),
        decreases n - lo,
    {
        assert(s@.subrange(lo as int, n as int).skip(1) =~= s@.subrange(lo + 1, n as int));
        lo = lo + 1;
    }
    assert(trim_front(s@.subrange(lo as int, n as int)) == s@.subrange(lo as int, n as int));
    let mut hi: usize = n;
    while hi > lo && is_white_space_char(s.get_char(hi - 1))
        invariant
            lo <= hi <= n == s@.len(),
            trimmed(s@) == trim_back(s@.subrange(lo as int, hi as int)),
        decreases hi,
    {
        assert(s@.subrange(lo as int, hi as int).drop_last() =~= s@.subrange(lo as int, hi - 1));
        hi = hi - 1;
    }
    assert(trim_back(s@.subrange(lo as int, hi as int)) == s@.subrange(lo as int, hi as int));
    s.substring_char(lo, hi)
}

/// A larger run of digits never denotes less than its prefix.
proof fn lemma_digits_value_prefix(s: Seq<char>, j: int)
    requires
        all_digits(s),
        0 <= j <= s.len(),
    ensures
        0 <= digits_value(s.subrange(0, j)) <= digits_value(s),
    decreases s.len(),
{
    if s.len() > 0 {
        assert(all_digits(s.drop_last()));
        assert(is_digit(s[s.len() - 1]));
        if j == s.len() {
            assert(s.subrange(0, j) =~= s);
            lemma_digits_value_prefix(s.drop_last(), j - 1);
        } else {
            assert(s.drop_last().subrange(0, j) =~= s.subrange(0, j));
            lemma_digits_value_prefix(s.drop_last(), j);
        }
    } else {
        assert(s.subrange(0, j) =~= s);
    }
}

/// Reads `s` as an `i32`: an optional sign followed by decimal digits.
pub fn parse_i32(s: &str) -> (r: Option<i32>)
    ensures
        match r {
            Some(v) => parse_i32_spec(s@) == Some(v as int),
            None => parse_i32_spec(s@) is None,
        },
{
    let n = s.unicode_len();
    if n == 0 {
        return None;
    }
    let first = s.get_char(0);
    let negative = first == '-';
    let start: usize = if first == '-' || first == '+' {
        1
    } else {
        0
    };
    let ghost body = if start == 1 {
        s@.skip(1)
    } else {
        s@
    };
    assert(body =~= s@.subrange(start as int, n as int));
    assert(s@[0] == first);
    assert(body == (if s@.len() > 0 && (s@[0] == '-' || s@[0] == '+') {
        s@.skip(1)
    } else {
        s@
    }));
    assert(negative == (s@.len() > 0 && s@[0] == '-'));
    if start == n {
        return None;
    }
    let mut acc: u64 = 0;
    let mut i: usize = start;
    while i < n
        invariant
            n == s@.len(),
            start <= i <= n,
            body == s@.subrange(start as int, n as int),
            body == (if s@.len() > 0 && (s@[0] == '-' || s@[0] == '+') {
                s@.skip(1)
            } else {
                s@
            }),
            negative == (s@.len() > 0 && s@[0] == '-'),
            acc == digits_value(s@.subrange(start as int, i as int)),
            all_digits(s@.subrange(start as int, i as int)),
            acc <= 2147483648,
        decreases n - i,
    {
        let c = s.get_char(i);
        if c < '0' || c > '9' {
            assert(!all_digits(body)) by {
                assert(body[i - start] == c);
            }
            proof {
                lemma_parse_rejects(s@, body);
            }
            return None;
        }
        let d = (c as u32 - '0' as u32) as u64;
        let ghost pre = s@.subrange(start as int, i as int);
        let ghost next = s@.subrange(start as int, i + 1);
        assert(next.drop_last() =~= pre);
        assert(next.last() == c);
        assert(d as int == digit_value(c));
        assert(digits_value(next) == digits_value(pre) * 10 + digit_value(c));
        acc = acc * 10 + d;
        assert(all_digits(next)) by {
            assert forall|j: int| 0 <= j < next.len() implies is_digit(#[trigger] next[j]) by {
                if j < pre.len() {
                    assert(next[j] == pre[j]);
                }
            }
        }
        if acc > 2147483648 {
            assert(parse_i32_spec(s@) is None) by {
                if all_digits(body) {
                    lemma_digits_value_prefix(body, i + 1 - start);
                    assert(body.subrange(0, i + 1 - start) =~= next);
                    assert(digits_value(body) > 2147483648);
                }
                lemma_parse_rejects(s@, body);
            }
            return None;
        }
        i = i + 1;
    }
    assert(s@.subrange(start as int, n as int) == body);
    if negative {
        Some((0 - acc as i64) as i32)
    } else if acc > 2147483647 {
        None
    } else {
        Some(acc as i32)
    }
}

/// The index of the last '.' in `s`, if it holds one.
fn find_last_dot(s: &str) -> (r: Option<usize>)
    ensures
        match r {
            Some(d) => last_dot(s@) == d as int && d < s@.len(),
            None => last_dot(s@) == -1,
        },
{
    let n = s.unicode_len();
    let mut found: Option<usize> = None;
    let mut i: usize = 0;
    while i < n
        invariant
            n == s@.len(),
            i <= n,
            match found {
                Some(d) => last_dot(s@.subrange(0, i as int)) == d as int && d < i,
                None => last_dot(s@.subrange(0, i as int)) == -1,
            },
        decreases n - i,
    {
        assert(s@.subrange(0, i + 1).drop_last() =~= s@.subrange(0, i as int));
        if s.get_char(i) == '.' {
            found = Some(i);
        }
        i = i + 1;
    }
    assert(s@.subrange(0, n as int) =~= s@);
    found
}

fn starts_with_mode_prefix(s: &str) -> (r: bool)
    ensures
        r == has_mode_prefix(s@),
{
    if s.unicode_len() < 5 {
        return false;
    }
    let r = s.get_char(0) == 'M' && s.get_char(1) == 'o' && s.get_char(2) == 'd' && s.get_char(3)
        == 'e' && s.get_char(4) == ' ';
    if r {
        assert(s@.subrange(0, 5) =~= mode_prefix());
    } else {
        assert(s@.subrange(0, 5) != mode_prefix()) by {
            if s@.subrange(0, 5) == mode_prefix() {
                assert(s@.subrange(0, 5)[0] == s@[0]);
                assert(s@.subrange(0, 5)[1] == s@[1]);
                assert(s@.subrange(0, 5)[2] == s@[2]);
                assert(s@.subrange(0, 5)[3] == s@[3]);
                assert(s@.subrange(0, 5)[4] == s@[4]);
            }
        }
    }
    r
}

/// Whether `candidate` is already some mode's name or default name.
pub fn is_name_taken<P>(modes: &[ModeSettings<P>], candidate: &String) -> (r: bool)
    ensures
        r == name_taken(modes@, candidate@),
{
    let mut i: usize = 0;
    while i < modes.len()
        invariant
            i <= modes@.len(),
            forall|j: int|
                #![trigger modes@[j]]
                0 <= j < i ==> modes@[j].name@ != candidate@ && modes@[j].default_name@ != candidate@,
        decreases modes.len() - i,
    {
        if modes[i].name == *candidate || modes[i].default_name == *candidate {
            assert(modes@[i as int].name@ == candidate@ || modes@[i as int].default_name@ == candidate@);
            return true;
        }
        i = i + 1;
    }
    false
}

pub(crate) fn new_mode_prefix() -> (r: String)
    ensures
        r@ == mode_prefix(),
{
    proof {
        reveal_strlit("Mode ");
    }
    let r = String::from_str("Mode ");
    assert(r@ =~= mode_prefix());
    r
}

/// The first unused name among `head.1` to `head.99`.
fn first_free_sub_level_name<P>(modes: &[ModeSettings<P>], head: &String) -> (r: Option<String>)
    ensures
        match r {
            Some(c) => first_free_sub_level(modes@, head@, 1) == Some(c@),
            None => first_free_sub_level(modes@, head@, 1) is None,
        },
{
    let mut i: u64 = 1;
    while i < 100
        invariant
            1 <= i <= 100,
            first_free_sub_level(modes@, head@, 1) == first_free_sub_level(modes@, head@, i as int),
        decreases 100 - i,
    {
        let mut candidate = head.clone();
        proof {
            reveal_strlit(".");
        }
        candidate.append(".");
        append_decimal(&mut candidate, i);
        assert(candidate@ =~= sub_level(head@, i as int));
        if !is_name_taken(modes, &candidate) {
            return Some(candidate);
        }
        i = i + 1;
    }
    None
}

/// A fresh display name for a mode created next to the mode whose default
/// name is `base_name`.
///
/// "Mode 3" gives "Mode 4" when that is free, else the first free of
/// "Mode 3.1" to "Mode 3.99"; "Mode 3.1" gives "Mode 3.2" when free, else the
/// first free of "Mode 3.1.1" to "Mode 3.1.99". When the base does not follow
/// that pattern, or every candidate is taken, the name is "Mode <number of
/// modes>", which may itself be taken.
pub fn generate_next_mode_name<P>(base_name: &str, existing_modes: &[ModeSettings<P>]) -> (r: String)
    ensures
        r@ == next_mode_name(base_name@, existing_modes@),
{
    let found = search_mode_name(base_name, existing_modes);
    match found {
        Some(name) => name,
        None => {
            let mut fallback = new_mode_prefix();
            append_decimal(&mut fallback, existing_modes.len() as u64);
            fallback
        },
    }
}

fn search_mode_name<P>(base_name: &str, modes: &[ModeSettings<P>]) -> (r: Option<String>)
    ensures
        match r {
            Some(c) => searched_mode_name(base_name@, modes@) == Some(c@),
            None => searched_mode_name(base_name@, modes@) is None,
        },
{
    if !starts_with_mode_prefix(base_name) {
        return None;
    }
    let n = base_name.unicode_len();
    let path = base_name.substring_char(5, n);
    assert(path@ =~= base_name@.skip(5));
    match find_last_dot(path) {
        Some(d) => {
            let plen = path.unicode_len();
            let tail = path.substring_char(d + 1, plen);
            assert(tail@ =~= path@.skip(d + 1));
            match parse_i32(tail) {
                Some(v) => {
                    let mut sibling = new_mode_prefix();
                    if d > 0 {
                        sibling.append(path.substring_char(0, d));
                        proof {
                            reveal_strlit(".");
                        }
                        sibling.append(".");
                    }
                    append_signed(&mut sibling, v as i64 + 1);
                    assert(sibling@ =~= next_sibling(path@, v as int));
                    if !is_name_taken(modes, &sibling) {
                        return Some(sibling);
                    }
                },
                None => {},
            }
            let mut head = new_mode_prefix();
            head.append(path);
            first_free_sub_level_name(modes, &head)
        },
        None => {
            match parse_i32(path) {
                Some(b) => {
                    let mut next = new_mode_prefix();
                    append_signed(&mut next, b as i64 + 1);
                    if !is_name_taken(modes, &next) {
                        return Some(next);
                    }
                    let mut head = new_mode_prefix();
                    append_signed(&mut head, b as i64);
                    first_free_sub_level_name(modes, &head)
                },
                None => None,
            }
        },
    }
}

proof fn lemma_first_free_is_free<P>(modes: Seq<ModeSettings<P>>, head: Seq<char>, i: int)
    ensures
        match first_free_sub_level(modes, head, i) {
            Some(c) => !name_taken(modes, c),
            None => true,
        },
    decreases 100 - i,
{
    if 1 <= i < 100 && name_taken(modes, sub_level(head, i)) {
        lemma_first_free_is_free(modes, head, i + 1);
    }
}

/// Whenever the hierarchical search finds a name, the generated name is used
/// by no mode of the list, neither as a name nor as a default name. Only the
/// fallback "Mode <number of modes>" may collide.
pub proof fn lemma_generated_name_is_fresh<P>(base: Seq<char>, modes: Seq<ModeSettings<P>>)
    ensures
        searched_mode_name(base, modes) is Some ==> !name_taken(modes, next_mode_name(base, modes)),
{
    if has_mode_prefix(base) {
        let path = base.skip(5);
        if last_dot(path) >= 0 {
            lemma_first_free_is_free(modes, mode_prefix() + path, 1);
        } else {
            match parse_i32_spec(path) {
                Some(b) => lemma_first_free_is_free(modes, mode_prefix() + signed_decimal(b), 1),
                None => {},
            }
        }
    }
}

/// Whether `s` holds a '.'.
pub open spec fn has_dot(s: Seq<char>) -> bool {
    exists|i: int| 0 <= i < s.len() && s[i] == '.'
}

/// The first name tried for `base`: the next integer, or for a dotted path
/// the next sibling. None when `base` has no number to increment.
pub open spec fn first_choice(base: Seq<char>) -> Option<Seq<char>> {
    if !has_mode_prefix(base) {
        None
    } else {
        let path = base.skip(5);
        if last_dot(path) >= 0 {
            match parse_i32_spec(path.skip(last_dot(path) + 1)) {
                Some(n) => Some(next_sibling(path, n)),
                None => None,
            }
        } else {
            match parse_i32_spec(path) {
                Some(b) => Some(mode_prefix() + signed_decimal(b + 1)),
                None => None,
            }
        }
    }
}

/// The name that sub-levels of `base` hang from.
pub open spec fn name_head(base: Seq<char>) -> Seq<char> {
    let path = base.skip(5);
    if last_dot(path) >= 0 {
        mode_prefix() + path
    } else {
        match parse_i32_spec(path) {
            Some(b) => mode_prefix() + signed_decimal(b),
            None => mode_prefix(),
        }
    }
}

/// The `j`-th name that the search tries for `base`: first the next integer
/// or sibling, then `head.1`, `head.2`, ...
pub open spec fn candidate(base: Seq<char>, j: int) -> Seq<char> {
    if j == 0 {
        match first_choice(base) {
            Some(c) => c,
            None => Seq::empty(),
        }
    } else {
        sub_level(name_head(base), j)
    }
}

proof fn lemma_decimal_no_dot(n: nat)
    ensures
        !has_dot(decimal(n)),
        decimal(n).len() >= 1,
        n < 10 <==> decimal(n).len() == 1,
    decreases n,
{
    if n >= 10 {
        lemma_decimal_no_dot(n / 10);
        let d = decimal(n);
        assert forall|i: int| 0 <= i < d.len() implies d[i] != '.' by {
            if i < d.len() - 1 {
                assert(d[i] == decimal(n / 10)[i]);
            }
        }
    }
}

proof fn lemma_signed_decimal_no_dot(n: int)
    ensures
        !has_dot(signed_decimal(n)),
{
    if n < 0 {
        lemma_decimal_no_dot((-n) as nat);
        let s = signed_decimal(n);
        assert forall|i: int| 0 <= i < s.len() implies s[i] != '.' by {
            if i > 0 {
                assert(s[i] == decimal((-n) as nat)[i - 1]);
            }
        }
    } else {
        lemma_decimal_no_dot(n as nat);
    }
}

proof fn lemma_decimal_injective(a: nat, b: nat)
    requires
        decimal(a) == decimal(b),
    ensures
        a == b,
    decreases a,
{
    lemma_decimal_no_dot(a);
    lemma_decimal_no_dot(b);
    if a >= 10 {
        assert(decimal(a).drop_last() =~= decimal(a / 10));
        assert(decimal(b).drop_last() =~= decimal(b / 10));
        lemma_decimal_injective(a / 10, b / 10);
        assert(decimal(a).last() == digit_char((a % 10) as int));
        assert(decimal(b).last() == digit_char((b % 10) as int));
        assert(a % 10 == b % 10);
        assert(a == 10 * (a / 10) + a % 10);
        assert(b == 10 * (b / 10) + b % 10);
    } else {
        assert(b < 10);
        assert(decimal(a)[0] == digit_char(a as int));
        assert(decimal(b)[0] == digit_char(b as int));
    }
}

proof fn lemma_last_dot_none(s: Seq<char>)
    requires
        !has_dot(s),
    ensures
        last_dot(s) == -1,
    decreases s.len(),
{
    if s.len() > 0 {
        assert(s.last() == s[s.len() - 1]);
        assert(!has_dot(s.drop_last())) by {
            assert forall|i: int| 0 <= i < s.len() - 1 implies s.drop_last()[i] != '.' by {
                assert(s.drop_last()[i] == s[i]);
            }
        }
        lemma_last_dot_none(s.drop_last());
    }
}

proof fn lemma_last_dot_after(x: Seq<char>, y: Seq<char>)
    requires
        !has_dot(y),
    ensures
        last_dot(x + seq!['.'] + y) == x.len(),
    decreases y.len(),
{
    let s = x + seq!['.'] + y;
    if y.len() == 0 {
        assert(s.last() == '.');
    } else {
        assert(s.last() == y[y.len() - 1]);
        assert(s.drop_last() =~= x + seq!['.'] + y.drop_last());
        assert(!has_dot(y.drop_last())) by {
            assert forall|i: int| 0 <= i < y.len() - 1 implies y.drop_last()[i] != '.' by {
                assert(y.drop_last()[i] == y[i]);
            }
        }
        lemma_last_dot_after(x, y.drop_last());
    }
}

proof fn lemma_last_dot_bounds(s: Seq<char>)
    ensures
        -1 <= last_dot(s) < s.len(),
    decreases s.len(),
{
    if s.len() > 0 {
        lemma_last_dot_bounds(s.drop_last());
    }
}

/// The hundred names the search tries for a base with a number to
/// increment are pairwise distinct.
proof fn lemma_candidates_distinct(base: Seq<char>, j: int, k: int)
    requires
        first_choice(base) is Some,
        0 <= j < k < 100,
    ensures
        candidate(base, j) != candidate(base, k),
{
    let head = name_head(base);
    lemma_decimal_no_dot(k as nat);
    lemma_last_dot_after(head, decimal(k as nat));
    assert(sub_level(head, k) =~= head + seq!['.'] + decimal(k as nat));
    if j > 0 {
        if candidate(base, j) == candidate(base, k) {
            let a = head + seq!['.'] + decimal(j as nat);
            let b = head + seq!['.'] + decimal(k as nat);
            assert(sub_level(head, j) =~= a);
            assert(a.skip(head.len() + 1int) =~= decimal(j as nat));
            assert(b.skip(head.len() + 1int) =~= decimal(k as nat));
            lemma_decimal_injective(j as nat, k as nat);
        }
    } else {
        let path = base.skip(5);
        let c0 = candidate(base, 0);
        lemma_last_dot_bounds(path);
        if last_dot(path) >= 0 {
            let n = parse_i32_spec(path.skip(last_dot(path) + 1))->Some_0;
            lemma_signed_decimal_no_dot(n + 1);
            let d = last_dot(path);
            if d == 0 {
                assert(!has_dot(mode_prefix() + signed_decimal(n + 1))) by {
                    let t = mode_prefix() + signed_decimal(n + 1);
                    assert forall|i: int| 0 <= i < t.len() implies t[i] != '.' by {
                        if i >= 5 {
                            assert(t[i] == signed_decimal(n + 1)[i - 5]);
                        }
                    }
                }
                lemma_last_dot_none(mode_prefix() + signed_decimal(n + 1));
            } else {
                lemma_last_dot_after(mode_prefix() + path.subrange(0, d), signed_decimal(n + 1));
                assert(c0 =~= mode_prefix() + path.subrange(0, d) + seq!['.'] + signed_decimal(n + 1));
            }
        } else {
            let b = parse_i32_spec(path)->Some_0;
            lemma_signed_decimal_no_dot(b + 1);
            assert(!has_dot(mode_prefix() + signed_decimal(b + 1))) by {
                let t = mode_prefix() + signed_decimal(b + 1);
                assert forall|i: int| 0 <= i < t.len() implies t[i] != '.' by {
                    if i >= 5 {
                        assert(t[i] == signed_decimal(b + 1)[i - 5]);
                    }
                }
            }
            lemma_last_dot_none(mode_prefix() + signed_decimal(b + 1));
        }
    }
}

proof fn lemma_first_free_at<P>(modes: Seq<ModeSettings<P>>, head: Seq<char>, i: int, k: int)
    requires
        1 <= i <= k < 100,
        forall|j: int| i <= j < k ==> name_taken(modes, #[trigger] sub_level(head, j)),
        !name_taken(modes, sub_level(head, k)),
    ensures
        first_free_sub_level(modes, head, i) == Some(sub_level(head, k)),
    decreases k - i,
{
    if i < k {
        lemma_first_free_at(modes, head, i + 1, k);
    }
}

proof fn lemma_chain_step<P>(base: Seq<char>, chain: Seq<ModeSettings<P>>, start: int, t: int)
    requires
        first_choice(base) is Some,
        0 <= start <= t < chain.len() <= start + 100,
        forall|j: int, i: int|
            0 <= j < 100 && 0 <= i < start ==> (#[trigger] chain[i]).name@ != #[trigger] candidate(
                base,
                j,
            ) && chain[i].default_name@ != candidate(base, j),
        forall|u: int|
            start <= u < chain.len() ==> (#[trigger] chain[u]).default_name@ == chain[u].name@,
        forall|u: int| start <= u < t ==> (#[trigger] chain[u]).name@ == candidate(base, u - start),
    ensures
        next_mode_name(base, chain.take(t)) == candidate(base, t - start),
        !name_taken(chain.take(t), candidate(base, t - start)),
{
    let l = chain.take(t);
    let k = t - start;
    assert forall|j: int| 0 <= j < k implies name_taken(l, #[trigger] candidate(base, j)) by {
        assert(l[start + j] == chain[start + j]);
    }
    assert(!name_taken(l, candidate(base, k))) by {
        assert forall|i: int| 0 <= i < l.len() implies !(#[trigger] l[i].name@ == candidate(base, k)
            || l[i].default_name@ == candidate(base, k)) by {
            assert(l[i] == chain[i]);
            if i >= start {
                lemma_candidates_distinct(base, i - start, k);
            }
        }
    }
    let path = base.skip(5);
    if k == 0 {
        assert(searched_mode_name(base, l) == Some(candidate(base, 0)));
    } else {
        assert(name_taken(l, candidate(base, 0)));
        assert forall|j: int| 1 <= j < k implies name_taken(l, #[trigger] sub_level(name_head(base), j)) by {
            assert(candidate(base, j) == sub_level(name_head(base), j));
        }
        lemma_first_free_at(l, name_head(base), 1, k);
        assert(searched_mode_name(base, l) == first_free_sub_level(l, name_head(base), 1));
    }
}

proof fn lemma_chain_follows_candidates<P>(base: Seq<char>, chain: Seq<ModeSettings<P>>, start: int, t: int)
    requires
        first_choice(base) is Some,
        0 <= start <= t <= chain.len() <= start + 100,
        forall|j: int, i: int|
            0 <= j < 100 && 0 <= i < start ==> (#[trigger] chain[i]).name@ != #[trigger] candidate(
                base,
                j,
            ) && chain[i].default_name@ != candidate(base, j),
        forall|u: int|
            start <= u < chain.len() ==> (#[trigger] chain[u]).default_name@ == chain[u].name@
                && chain[u].name@ == next_mode_name(base, chain.take(u)),
    ensures
        forall|u: int| start <= u < t ==> (#[trigger] chain[u]).name@ == candidate(base, u - start),
    decreases t - start,
{
    if t > start {
        lemma_chain_follows_candidates(base, chain, start, t - 1);
        lemma_chain_step(base, chain, start, t - 1);
    }
}

/// Chaining the generator on its own output: when each of up to a hundred
/// modes appended to a list is named by `next_mode_name` from one base with
/// a number to increment, against the list so far, and the list started
/// without any of the names the search tries, every appended name was fresh
/// when it was generated.
pub proof fn lemma_chained_names_fresh<P>(base: Seq<char>, chain: Seq<ModeSettings<P>>, start: int)
    requires
        first_choice(base) is Some,
        0 <= start <= chain.len() <= start + 100,
        forall|j: int, i: int|
            0 <= j < 100 && 0 <= i < start ==> (#[trigger] chain[i]).name@ != #[trigger] candidate(
                base,
                j,
            ) && chain[i].default_name@ != candidate(base, j),
        forall|u: int|
            start <= u < chain.len() ==> (#[trigger] chain[u]).default_name@ == chain[u].name@
                && chain[u].name@ == next_mode_name(base, chain.take(u)),
    ensures
        forall|u: int|
            start <= u < chain.len() ==> !name_taken(chain.take(u), (#[trigger] chain[u]).name@),
{
    lemma_chain_follows_candidates(base, chain, start, chain.len() as int);
    assert forall|u: int| start <= u < chain.len() implies !name_taken(
        chain.take(u),
        (#[trigger] chain[u]).name@,
    ) by {
        lemma_chain_step(base, chain, start, u);
    }
}

} // verus!
