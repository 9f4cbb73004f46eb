//! Small verified helpers on strings and lists of strings.
//!
//! Every contract in this crate speaks of a string through its view, the
//! sequence of its characters, and of a list of strings through
//! [`texts`], the sequence of those views.

use vstd::prelude::*;
use vstd::utf8::*;
use vstd::string::*;

verus! {

/// The character sequences of a list of strings, in order.
pub open spec fn texts(list: Seq<String>) -> Seq<Seq<char>> {
    Seq::new(list.len(), |i: int| list[i]@)
}

/// The character sequence held by an optional string.
pub open spec fn opt_text(s: Option<String>) -> Option<Seq<char>> {
    match s {
        Some(t) => Some(t@),
        None => None,
    }
}

/// The character sequences of an optional list of strings.
pub open spec fn opt_texts(list: Option<Vec<String>>) -> Option<Seq<Seq<char>>> {
    match list {
        Some(l) => Some(texts(l@)),
        None => None,
    }
}

/// The character sequence held by an optional borrowed string.
pub open spec fn opt_str_text(s: Option<&str>) -> Option<Seq<char>> {
    match s {
        Some(t) => Some(t@),
        None => None,
    }
}

/// Whether two string slices hold the same characters.
pub fn str_eq(a: &str, b: &str) -> (r: bool)
    ensures
        r == (a@ == b@),
{
    let x = a.as_bytes();
    let y = b.as_bytes();
    proof {
        encode_utf8_decode_utf8(a@);
        encode_utf8_decode_utf8(b@);
    }
    if x.len() != y.len() {
        return false;
    }
    let mut i: usize = 0;
    while i < x.len()
        invariant
            i <= x.len(),
            x.len() == y.len(),
            forall|j: int| 0 <= j < i ==> x@[j] == y@[j],
            x@ == encode_utf8(a@),
            y@ == encode_utf8(b@),
            decode_utf8(encode_utf8(a@)) == a@,
            decode_utf8(encode_utf8(b@)) == b@,
        decreases x.len() - i,
    {
        if x[i] != y[i] {
            return false;
        }
        i += 1;
    }
    assert(x@ =~= y@);
    true
}

/// Whether an optional string holds the same characters as an optional slice.
pub fn opt_eq(a: &Option<String>, b: Option<&str>) -> (r: bool)
    ensures
        r == (opt_text(*a) == opt_str_text(b)),
{
    match (a, b) {
        (Some(x), Some(y)) => str_eq(x.as_str(), y),
        (None, None) => true,
        _ => false,
    }
}

/// Whether `list` holds a string equal to `wanted`.
pub fn contains_str(list: &Vec<String>, wanted: &str) -> (r: bool)
    ensures
        r == texts(list@).contains(wanted@),
{
    let mut i: usize = 0;
    while i < list.len()
        invariant
            i <= list.len(),
            forall|j: int| 0 <= j < i ==> texts(list@)[j] != wanted@,
        decreases list.len() - i,
    {
        if str_eq(list[i].as_str(), wanted) {
            assert(texts(list@)[i as int] == wanted@);
            return true;
        }
        i += 1;
    }
    false
}

/// A copy of a list of strings.
pub fn clone_strings(list: &Vec<String>) -> (r: Vec<String>)
    ensures
        texts(r@) == texts(list@),
{
    let mut out: Vec<String> = Vec::new();
    let mut i: usize = 0;
    while i < list.len()
        invariant
            i <= list.len(),
            out.len() == i,
            forall|j: int| 0 <= j < i ==> out@[j]@ == list@[j]@,
        decreases list.len() - i,
    {
        out.push(list[i].clone());
        i += 1;
    }
    assert(texts(out@) =~= texts(list@));
    out
}

/// A copy of an optional string.
pub fn clone_opt(s: &Option<String>) -> (r: Option<String>)
    ensures
        opt_text(r) == opt_text(*s),
{
    match s {
        Some(t) => Some(t.clone()),
        None => None,
    }
}

/// Appends a copy of every string of `more` to `list`.
pub fn append_strings(list: &mut Vec<String>, more: &Vec<String>)
    ensures
        texts(final(list)@) == texts(old(list)@) + texts(more@),
{
    let ghost before = list@;
    let mut i: usize = 0;
    while i < more.len()
        invariant
            i <= more.len(),
            list.len() == before.len() + i,
            forall|j: int| 0 <= j < before.len() ==> list@[j] == before[j],
            forall|j: int| 0 <= j < i ==> list@[before.len() + j]@ == more@[j]@,
        decreases more.len() - i,
    {
        list.push(more[i].clone());
        i += 1;
    }
    assert(texts(list@) =~= texts(before) + texts(more@));
}

/// What a sequence holds after one more element.
pub proof fn lemma_contains_push<A>(s: Seq<A>, added: A, x: A)
    ensures
        s.push(added).contains(x) <==> (s.contains(x) || added == x),
{
    let longer = s.push(added);
    if longer.contains(x) {
        let at = choose|at: int| 0 <= at < longer.len() && longer[at] == x;
        if at < s.len() {
            assert(s[at] == x);
        }
    }
    if s.contains(x) {
        let at = choose|at: int| 0 <= at < s.len() && s[at] == x;
        assert(longer[at] == x);
    }
    if added == x {
        assert(longer[s.len() as int] == x);
    }
}

/// What two sequences hold, one after the other.
pub proof fn lemma_contains_add<A>(s: Seq<A>, t: Seq<A>, x: A)
    ensures
        (s + t).contains(x) <==> (s.contains(x) || t.contains(x)),
{
    let both = s + t;
    if both.contains(x) {
        let at = choose|at: int| 0 <= at < both.len() && both[at] == x;
        if at < s.len() {
            assert(s[at] == x);
        } else {
            assert(t[at - s.len()] == x);
        }
    }
    if s.contains(x) {
        let at = choose|at: int| 0 <= at < s.len() && s[at] == x;
        assert(both[at] == x);
    }
    if t.contains(x) {
        let at = choose|at: int| 0 <= at < t.len() && t[at] == x;
        assert(both[s.len() + at] == x);
    }
}

/// The characters of a string.
pub fn str_chars(s: &str) -> (r: Vec<char>)
    ensures
        r@ == s@,
{
    let mut out: Vec<char> = Vec::new();
    for c in it: s.chars()
        invariant
            out@ == it.seq().take(it.index() as int),
            it.seq() == s@,
    {
        out.push(c);
    }
    out
}

/// The index of the first `sep` of `s` at or after `from`, or the length of
/// `s`.
pub open spec fn next_sep(s: Seq<char>, sep: char, from: int) -> int
    decreases s.len() - from,
{
    if from < 0 || from >= s.len() {
        s.len() as int
    } else if s[from] == sep {
        from
    } else {
        next_sep(s, sep, from + 1)
    }
}

/// The pieces of `s` from index `from` on, cut at every `sep`.
pub open spec fn split_from(s: Seq<char>, sep: char, from: int) -> Seq<Seq<char>>
    decreases s.len() - from,
{
    if from < 0 || from > s.len() {
        Seq::empty()
    } else {
        let at = next_sep(s, sep, from);
        if from <= at < s.len() {
            seq![s.subrange(from, at)] + split_from(s, sep, at + 1)
        } else {
            seq![s.subrange(from, s.len() as int)]
        }
    }
}

/// The pieces of `s` cut at every `sep`. There is always at least one
/// piece, and a piece may be empty.
pub open spec fn spec_split(s: Seq<char>, sep: char) -> Seq<Seq<char>> {
    split_from(s, sep, 0)
}

proof fn lemma_next_sep_skip(s: Seq<char>, sep: char, from: int, to: int)
    requires
        0 <= from <= to <= s.len(),
        forall|k: int| from <= k < to ==> s[k] != sep,
    ensures
        next_sep(s, sep, from) == next_sep(s, sep, to),
    decreases to - from,
{
    if from < to {
        lemma_next_sep_skip(s, sep, from + 1, to);
    }
}

/// Cuts a string at every `sep`.
pub fn split_on(text: &str, sep: char) -> (r: Vec<String>)
    ensures
        texts(r@) == spec_split(text@, sep),
{
    let chars = str_chars(text);
    let n = chars.len();
    let mut pieces: Vec<String> = Vec::new();
    let mut start: usize = 0;
    let mut i: usize = 0;
    while i < n
        invariant
            n == text@.len(),
            chars@ == text@,
            start <= i <= n,
            forall|k: int| start <= k < i ==> text@[k] != sep,
            spec_split(text@, sep) == texts(pieces@) + split_from(text@, sep, start as int),
        decreases n - i,
    {
        if chars[i] == sep {
            proof {
                lemma_next_sep_skip(text@, sep, start as int, i as int);
                assert(next_sep(text@, sep, start as int) == i);
            }
            let ghost before = texts(pieces@);
            pieces.push(text.substring_char(start, i).to_owned());
            assert(texts(pieces@) =~= before + seq![text@.subrange(start as int, i as int)]);
            assert(seq![text@.subrange(start as int, i as int)] + split_from(text@, sep, i + 1)
                == split_from(text@, sep, start as int));
            start = i + 1;
        }
        i += 1;
    }
    proof {
        lemma_next_sep_skip(text@, sep, start as int, n as int);
        assert(next_sep(text@, sep, start as int) == n);
    }
    let ghost before = texts(pieces@);
    pieces.push(text.substring_char(start, n).to_owned());
    assert(texts(pieces@) =~= before + seq![text@.subrange(start as int, n as int)]);
    pieces
}

/// Whether `s` begins with `prefix`.
pub open spec fn has_prefix(s: Seq<char>, prefix: Seq<char>) -> bool {
    prefix.len() <= s.len() && s.subrange(0, prefix.len() as int) == prefix
}

/// What follows `prefix` in `s`, where `s` begins with it.
pub open spec fn spec_strip_prefix(s: Seq<char>, prefix: Seq<char>) -> Option<Seq<char>> {
    if has_prefix(s, prefix) {
        Some(s.subrange(prefix.len() as int, s.len() as int))
    } else {
        None
    }
}

/// What follows `prefix` in `text`, where `text` begins with it.
pub fn strip_prefix(text: &str, prefix: &str) -> (r: Option<String>)
    ensures
        opt_text(r) == spec_strip_prefix(text@, prefix@),
{
    let chars = str_chars(text);
    let wanted = str_chars(prefix);
    if wanted.len() > chars.len() {
        return None;
    }
    let mut i: usize = 0;
    while i < wanted.len()
        invariant
            i <= wanted.len() <= chars.len(),
            chars@ == text@,
            wanted@ == prefix@,
            forall|k: int| 0 <= k < i ==> chars@[k] == wanted@[k],
        decreases wanted.len() - i,
    {
        if chars[i] != wanted[i] {
            assert(text@.subrange(0, prefix@.len() as int)[i as int] != prefix@[i as int]);
            return None;
        }
        i += 1;
    }
    assert(text@.subrange(0, prefix@.len() as int) =~= prefix@);
    Some(text.substring_char(wanted.len(), chars.len()).to_owned())
}

/// The character that writes the digit `d`.
pub open spec fn digit(d: int) -> char {
    if d == 0 {
        '0'
    } else if d == 1 {
        '1'
    } else if d == 2 {
        '2'
    } else if d == 3 {
        '3'
    } else if d == 4 {
        '4'
    } else if d == 5 {
        '5'
    } else if d == 6 {
        '6'
    } else if d == 7 {
        '7'
    } else if d == 8 {
        '8'
    } else {
        '9'
    }
}

/// The decimal digits of `n`, without leading zeros.
pub open spec fn spec_decimal(n: nat) -> Seq<char>
    decreases n,
{
    if n < 10 {
        seq![digit(n as int)]
    } else {
        spec_decimal(n / 10).push(digit((n % 10) as int))
    }
}

/// The string that writes one digit.
fn digit_str(d: u64) -> (r: &'static str)
    requires
        d < 10,
    ensures
        r@ == seq![digit(d as int)],
{
    proof {
        reveal_strlit("0");
        reveal_strlit("1");
        reveal_strlit("2");
        reveal_strlit("3");
        reveal_strlit("4");
        reveal_strlit("5");
        reveal_strlit("6");
        reveal_strlit("7");
        reveal_strlit("8");
        reveal_strlit("9");
    }
    let r = if d == 0 {
        "0"
    } else if d == 1 {
        "1"
    } else if d == 2 {
        "2"
    } else if d == 3 {
        "3"
    } else if d == 4 {
        "4"
    } else if d == 5 {
        "5"
    } else if d == 6 {
        "6"
    } else if d == 7 {
        "7"
    } else if d == 8 {
        "8"
    } else {
        "9"
    };
    assert(r@ =~= seq![digit(d as int)]);
    r
}

/// Writes a number in decimal digits.
pub fn decimal(n: u64) -> (r: String)
    ensures
        r@ == spec_decimal(n as nat),
    decreases n,
{
    if n < 10 {
        digit_str(n).to_owned()
    } else {
        let head = decimal(n / 10);
        let r = head.concat(digit_str(n % 10));
        assert(r@ =~= spec_decimal((n / 10) as nat).push(digit((n % 10) as int)));
        r
    }
}

/// The first `upto` pieces with `sep` between them.
pub open spec fn joined(pieces: Seq<Seq<char>>, sep: Seq<char>, upto: int) -> Seq<char>
    decreases upto,
{
    if upto <= 0 {
        Seq::empty()
    } else if upto == 1 {
        pieces[0]
    } else {
        joined(pieces, sep, upto - 1) + sep + pieces[upto - 1]
    }
}

/// The pieces with `sep` between them.
pub open spec fn spec_join(pieces: Seq<Seq<char>>, sep: Seq<char>) -> Seq<char> {
    joined(pieces, sep, pieces.len() as int)
}

/// Joins strings with `sep` between them.
pub fn join(pieces: &Vec<String>, sep: &str) -> (r: String)
    ensures
        r@ == spec_join(texts(pieces@), sep@),
{
    let mut out = String::new();
    let mut i: usize = 0;
    while i < pieces.len()
        invariant
            i <= pieces.len(),
            out@ == joined(texts(pieces@), sep@, i as int),
        decreases pieces.len() - i,
    {
        assert(texts(pieces@)[i as int] == pieces@[i as int]@);
        if i > 0 {
            out.append(sep);
        }
        let ghost before = out@;
        out.append(pieces[i].as_str());
        assert(i == 0 ==> before + pieces@[i as int]@ =~= pieces@[i as int]@);
        i += 1;
    }
    out
}

/// Whether a character is white space: one of the characters with the
/// Unicode property `White_Space`.
pub open spec fn spec_is_space(c: char) -> bool {
    let u = c as u32;
    (0x09 <= u <= 0x0d) || u == 0x20 || u == 0x85 || u == 0xa0 || u == 0x1680 || (0x2000 <= u
        <= 0x200a) || u == 0x2028 || u == 0x2029 || u == 0x202f || u == 0x205f || u == 0x3000
}

/// Whether a character is white space.
pub fn is_space(c: char) -> (r: bool)
    ensures
        r == spec_is_space(c),
{
    let u = c as u32;
    (0x09 <= u && u <= 0x0d) || u == 0x20 || u == 0x85 || u == 0xa0 || u == 0x1680 || (0x2000 <= u
        && u <= 0x200a) || u == 0x2028 || u == 0x2029 || u == 0x202f || u == 0x205f || u == 0x3000
}

/// The index of the first character of `s` at or after `from` that is not
/// white space, or the length of `s`.
pub open spec fn trim_start_at(s: Seq<char>, from: int) -> int
    decreases s.len() - from,
{
    if from < 0 || from >= s.len() {
        s.len() as int
    } else if spec_is_space(s[from]) {
        trim_start_at(s, from + 1)
    } else {
        from
    }
}

/// The end of what is left of `s` between `start` and `end` once trailing
/// white space is cut off.
pub open spec fn trim_end_at(s: Seq<char>, start: int, end: int) -> int
    decreases end - start,
{
    if end <= start || end > s.len() {
        start
    } else if spec_is_space(s[end - 1]) {
        trim_end_at(s, start, end - 1)
    } else {
        end
    }
}

/// `s` without the white space at its beginning and at its end.
pub open spec fn spec_trim(s: Seq<char>) -> Seq<char> {
    let start = trim_start_at(s, 0);
    s.subrange(start, trim_end_at(s, start, s.len() as int))
}

/// Cuts the white space off the beginning and the end of a string.
pub fn trim(text: &str) -> (r: String)
    ensures
        r@ == spec_trim(text@),
{
    let chars = str_chars(text);
    let n = chars.len();
    let mut start: usize = 0;
    while start < n && is_space(chars[start])
        invariant
            start <= n,
            n == chars.len(),
            chars@ == text@,
            trim_start_at(text@, 0) == trim_start_at(text@, start as int),
        decreases n - start,
    {
        start += 1;
    }
    let mut end: usize = n;
    while end > start && is_space(chars[end - 1])
        invariant
            start <= end <= n,
            n == chars.len(),
            chars@ == text@,
            trim_start_at(text@, 0) == start,
            trim_end_at(text@, start as int, n as int) == trim_end_at(text@, start as int, end as int),
        decreases end - start,
    {
        end -= 1;
    }
    text.substring_char(start, end).to_owned()
}

/// Whether `pattern` stands in `s` at index `at`.
pub open spec fn occurs_at(s: Seq<char>, pattern: Seq<char>, at: int) -> bool {
    0 <= at && at + pattern.len() <= s.len() && s.subrange(at, at + pattern.len()) == pattern
}

/// The least index at or after `from` at which `pattern` stands in `s`, or
/// -1 when there is none.
pub open spec fn find_from(s: Seq<char>, pattern: Seq<char>, from: int) -> int
    decreases s.len() - from,
{
    if from < 0 || from + pattern.len() > s.len() {
        -1
    } else if occurs_at(s, pattern, from) {
        from
    } else if from >= s.len() {
        -1
    } else {
        find_from(s, pattern, from + 1)
    }
}

/// Whether `pattern` stands somewhere in `s`.
pub open spec fn spec_contains_text(s: Seq<char>, pattern: Seq<char>) -> bool {
    find_from(s, pattern, 0) >= 0
}

/// Whether the characters of `pattern` stand in `chars` at index `at`.
fn stands_at(chars: &Vec<char>, pattern: &Vec<char>, at: usize) -> (r: bool)
    requires
        at + pattern.len() <= chars.len(),
    ensures
        r == occurs_at(chars@, pattern@, at as int),
{
    let mut k: usize = 0;
    while k < pattern.len()
        invariant
            k <= pattern.len(),
            at + pattern.len() <= chars.len(),
            forall|j: int| 0 <= j < k ==> chars@[at + j] == pattern@[j],
        decreases pattern.len() - k,
    {
        if chars[at + k] != pattern[k] {
            assert(chars@.subrange(at as int, at + pattern.len())[k as int] != pattern@[k as int]);
            return false;
        }
        k += 1;
    }
    assert(chars@.subrange(at as int, at + pattern.len()) =~= pattern@);
    true
}

/// Whether `pattern` stands somewhere in `text`.
pub fn contains_text(text: &str, pattern: &str) -> (r: bool)
    ensures
        r == spec_contains_text(text@, pattern@),
{
    let chars = str_chars(text);
    let wanted = str_chars(pattern);
    if wanted.len() > chars.len() {
        return false;
    }
    let last = chars.len() - wanted.len();
    let mut i: usize = 0;
    loop
        invariant
            i <= last,
            last == chars.len() - wanted.len(),
            wanted.len() <= chars.len(),
            chars@ == text@,
            wanted@ == pattern@,
            find_from(text@, pattern@, 0) == find_from(text@, pattern@, i as int),
        decreases last - i,
    {
        if stands_at(&chars, &wanted, i) {
            return true;
        }
        if i == last {
            assert(find_from(text@, pattern@, i + 1) == -1);
            return false;
        }
        i += 1;
    }
}

/// The first `upto` names without repeats: of equal names only the first
/// stays.
pub open spec fn distinct(names: Seq<Seq<char>>, upto: int) -> Seq<Seq<char>>
    decreases upto,
{
    if upto <= 0 {
        Seq::empty()
    } else if distinct(names, upto - 1).contains(names[upto - 1]) {
        distinct(names, upto - 1)
    } else {
        distinct(names, upto - 1).push(names[upto - 1])
    }
}

/// The names without repeats, in the order of their first mention.
pub fn distinct_names(names: &Vec<String>) -> (r: Vec<String>)
    ensures
        texts(r@) == distinct(texts(names@), names.len() as int),
{
    let mut out: Vec<String> = Vec::new();
    let mut i: usize = 0;
    assert(texts(out@) =~= Seq::<Seq<char>>::empty());
    while i < names.len()
        invariant
            i <= names.len(),
            texts(out@) == distinct(texts(names@), i as int),
        decreases names.len() - i,
    {
        assert(texts(names@)[i as int] == names@[i as int]@);
        if !contains_str(&out, names[i].as_str()) {
            let ghost before = texts(out@);
            out.push(names[i].clone());
            assert(texts(out@) =~= before.push(names@[i as int]@));
        }
        i += 1;
    }
    out
}

/// Of the first `upto` names, those that begin with `prefix`, in order.
pub open spec fn with_prefix(names: Seq<Seq<char>>, prefix: Seq<char>, upto: int) -> Seq<Seq<char>>
    decreases upto,
{
    if upto <= 0 {
        Seq::empty()
    } else if has_prefix(names[upto - 1], prefix) {
        with_prefix(names, prefix, upto - 1).push(names[upto - 1])
    } else {
        with_prefix(names, prefix, upto - 1)
    }
}

/// The names that begin with `prefix`, in order.
pub fn names_with_prefix(names: &Vec<String>, prefix: &str) -> (r: Vec<String>)
    ensures
        texts(r@) == with_prefix(texts(names@), prefix@, names.len() as int),
{
    let mut out: Vec<String> = Vec::new();
    let mut i: usize = 0;
    assert(texts(out@) =~= Seq::<Seq<char>>::empty());
    while i < names.len()
        invariant
            i <= names.len(),
            texts(out@) == with_prefix(texts(names@), prefix@, i as int),
        decreases names.len() - i,
    {
        assert(texts(names@)[i as int] == names@[i as int]@);
        if strip_prefix(names[i].as_str(), prefix).is_some() {
            let ghost before = texts(out@);
            out.push(names[i].clone());
            assert(texts(out@) =~= before.push(names@[i as int]@));
        }
        i += 1;
    }
    out
}

} // verus!
