//! Helpers of the command-line program that compute without touching the
//! system: what a reply means, what to tell of an engine error, how a list
//! of packages is laid out, and which command runs a program as the user.

use vstd::prelude::*;
use vstd::string::*;
use vstd::utf8::encode_utf8;
use crate::message::{messages, Message, MessageKind, MessageModel};
use crate::text::{
    decimal, next_sep, spec_decimal, spec_split, spec_strip_prefix, split_on,
    str_chars, str_eq, strip_prefix, texts,
};

verus! {

/// A request to the repository's interface that carries the user's token.
#[derive(Debug)]
pub struct AuthenticatedRequest<'a> {
    api_token: &'a str,
    mpr_url: &'a str,
}

impl<'a> AuthenticatedRequest<'a> {
    /// The token that authorizes the request.
    pub closed spec fn token(&self) -> Seq<char> {
        self.api_token@
    }

    /// The address of the repository.
    pub closed spec fn site(&self) -> Seq<char> {
        self.mpr_url@
    }

    /// A request to the repository at `mpr_url` with the token `api_token`.
    pub fn new(api_token: &'a str, mpr_url: &'a str) -> (r: Self)
        ensures
            r.token() == api_token@,
            r.site() == mpr_url@,
    {
        Self { api_token, mpr_url }
    }

    /// The token to send in the `Authorization` header.
    pub fn api_token(&self) -> (r: &'a str)
        ensures
            r@ == self.token(),
    {
        self.api_token
    }

    /// The address of the interface's method at `path`.
    pub fn url(&self, path: &str) -> (r: String)
        ensures
            r@ == self.site() + "/api/"@ + path@,
    {
        self.mpr_url.to_owned().concat("/api/").concat(path)
    }

    /// Whether an answer of the interface says that the token is not valid:
    /// its type is `error` and its code is `err_invalid_api_key`.
    pub fn is_invalid_api_key(resp_type: &str, code: &str) -> (r: bool)
        ensures
            r == (resp_type@ == "error"@ && code@ == "err_invalid_api_key"@),
    {
        str_eq(resp_type, "error") && str_eq(code, "err_invalid_api_key")
    }
}

/// What one entry of an engine error tells: an entry that begins with `E:`
/// is an error, one that begins with `W:` a warning, and any other tells
/// nothing. The text is what follows the mark, and a line break.
pub open spec fn spec_error_message(entry: Seq<char>) -> Option<MessageModel> {
    if let Some(rest) = spec_strip_prefix(entry, "E:"@) {
        Some(MessageModel { kind: MessageKind::Error, text: rest + "\n"@ })
    } else if let Some(rest) = spec_strip_prefix(entry, "W:"@) {
        Some(MessageModel { kind: MessageKind::Warning, text: rest + "\n"@ })
    } else {
        None
    }
}

/// What the first `upto` entries tell, in order.
pub open spec fn error_messages(entries: Seq<Seq<char>>, upto: int) -> Seq<MessageModel>
    decreases upto,
{
    if upto <= 0 {
        Seq::empty()
    } else {
        match spec_error_message(entries[upto - 1]) {
            Some(m) => error_messages(entries, upto - 1).push(m),
            None => error_messages(entries, upto - 1),
        }
    }
}

/// What an engine error tells. Its entries are separated by `;`.
pub open spec fn spec_handle_errors(what: Seq<char>) -> Seq<MessageModel> {
    error_messages(spec_split(what, ';'), spec_split(what, ';').len() as int)
}

/// The messages to print for an error of the system's package engine.
///
/// `err_str` is the text of the error: entries separated by `;`, each
/// marked `E:` for an error or `W:` for a warning.
pub fn handle_errors(err_str: &str) -> (r: Vec<Message>)
    ensures
        messages(r@) == spec_handle_errors(err_str@),
{
    let entries = split_on(err_str, ';');
    let mut out: Vec<Message> = Vec::new();
    let mut i: usize = 0;
    assert(messages(out@) =~= Seq::<MessageModel>::empty());
    while i < entries.len()
        invariant
            i <= entries.len(),
            messages(out@) == error_messages(texts(entries@), i as int),
        decreases entries.len() - i,
    {
        let ghost before = messages(out@);
        assert(texts(entries@)[i as int] == entries@[i as int]@);
        if let Some(rest) = strip_prefix(entries[i].as_str(), "E:") {
            let m = Message { kind: MessageKind::Error, text: rest.concat("\n") };
            out.push(m);
            assert(messages(out@) =~= before.push(m@));
        } else if let Some(rest) = strip_prefix(entries[i].as_str(), "W:") {
            let m = Message { kind: MessageKind::Warning, text: rest.concat("\n") };
            out.push(m);
            assert(messages(out@) =~= before.push(m@));
        }
        i += 1;
    }
    out
}

/// Whether a reply means yes: it is `y` or `Y`, or it is empty and yes is
/// the default.
pub fn is_yes(resp: &str, default: bool) -> (r: bool)
    ensures
        r == (resp@ == "y"@ || resp@ == "Y"@ || (resp@.len() == 0 && default)),
{
    str_eq(resp, "y") || str_eq(resp, "Y") || (resp.unicode_len() == 0 && default)
}

/// The directory of the cache that all users share.
pub fn get_global_cache_dir() -> (r: String)
    ensures
        r@ == "/var/cache/mist"@,
{
    "/var/cache/mist".to_owned()
}

/// The command line that runs `program` as the user with the number
/// `uid`, through `sudo`, keeping the environment and never asking for a
/// password. Further arguments of the program are appended by the caller.
pub fn run_as_normal_user(uid: u32, program: &str) -> (r: Vec<String>)
    ensures
        texts(r@) == seq![
            "sudo"@,
            "-E"@,
            "-n"@,
            "-u#"@ + spec_decimal(uid as nat),
            "--"@,
            program@,
        ],
{
    let mut cmd: Vec<String> = Vec::new();
    cmd.push("sudo".to_owned());
    cmd.push("-E".to_owned());
    cmd.push("-n".to_owned());
    cmd.push("-u#".to_owned().concat(decimal(uid as u64).as_str()));
    cmd.push("--".to_owned());
    cmd.push(program.to_owned());
    assert(texts(cmd@) =~= seq![
        "sudo"@,
        "-E"@,
        "-n"@,
        "-u#"@ + spec_decimal(uid as nat),
        "--"@,
        program@,
    ]);
    cmd
}

/// How many bytes a string takes.
pub open spec fn byte_len(s: Seq<char>) -> int {
    encode_utf8(s).len() as int
}

/// The names from index `from` on, laid out in lines: each name is followed
/// by a space, or, where the line has grown over `limit` bytes with it, by
/// a line break and two spaces. `current` is what the line holds so far.
pub open spec fn pkglist_from(names: Seq<Seq<char>>, limit: int, from: int, current: int) -> Seq<
    char,
>
    decreases names.len() - from,
{
    if from < 0 || from >= names.len() {
        Seq::empty()
    } else if current + byte_len(names[from]) > limit {
        names[from] + "\n  "@ + pkglist_from(names, limit, from + 1, 0)
    } else {
        names[from] + " "@ + pkglist_from(
            names,
            limit,
            from + 1,
            current + byte_len(names[from]),
        )
    }
}

/// A list of package names laid out for a terminal of `term_width` columns.
/// Every line begins with two spaces, which do not count.
pub open spec fn spec_format_apt_pkglist(names: Seq<Seq<char>>, term_width: int) -> Seq<char> {
    "  "@ + pkglist_from(names, term_width - 2, 0, 0)
}

/// Lays out a list of package names as the system's package tool does.
pub fn format_apt_pkglist(pkgnames: &Vec<String>, term_width: usize) -> (r: String)
    requires
        term_width >= 2,
    ensures
        r@ == spec_format_apt_pkglist(texts(pkgnames@), term_width as int),
{
    let limit = term_width - 2;
    let mut output = "  ".to_owned();
    let mut current_width: usize = 0;
    let mut i: usize = 0;
    while i < pkgnames.len()
        invariant
            i <= pkgnames.len(),
            limit == term_width - 2,
            current_width <= limit,
            spec_format_apt_pkglist(texts(pkgnames@), term_width as int) == output@ + pkglist_from(
                texts(pkgnames@),
                limit as int,
                i as int,
                current_width as int,
            ),
        decreases pkgnames.len() - i,
    {
        let pkgname = pkgnames[i].as_str();
        let ghost before = output@;
        let ghost rest = pkglist_from(texts(pkgnames@), limit as int, i as int, current_width as int);
        assert(texts(pkgnames@)[i as int] == pkgname@);
        output.append(pkgname);
        let width = pkgname.as_bytes().len();
        if width > limit - current_width {
            output.append("\n  ");
            current_width = 0;
            assert(before + rest =~= output@ + pkglist_from(
                texts(pkgnames@),
                limit as int,
                i + 1,
                0,
            ));
        } else {
            output.append(" ");
            current_width = current_width + width;
            assert(before + rest =~= output@ + pkglist_from(
                texts(pkgnames@),
                limit as int,
                i + 1,
                current_width as int,
            ));
        }
        i += 1;
    }
    assert(output@ + Seq::<char>::empty() =~= output@);
    output
}

/// The value of a decimal digit.
pub open spec fn digit_value(c: char) -> int {
    c as u32 - 0x30
}

/// Whether every character of `s` is a decimal digit.
pub open spec fn is_digits(s: Seq<char>) -> bool {
    forall|i: int| 0 <= i < s.len() ==> 0x30 <= (#[trigger] s[i]) as u32 <= 0x39
}

/// The number that the first `upto` digits of `s` write.
pub open spec fn digits_value(s: Seq<char>, upto: int) -> int
    decreases upto,
{
    if upto <= 0 {
        0
    } else {
        digits_value(s, upto - 1) * 10 + digit_value(s[upto - 1])
    }
}

/// The number that `s` writes in decimal digits, where it is made of
/// digits, has at least one, and the number fits the machine's word.
pub open spec fn spec_number(s: Seq<char>) -> Option<usize> {
    if s.len() == 0 || !is_digits(s) || digits_value(s, s.len() as int) > usize::MAX {
        None
    } else {
        Some(digits_value(s, s.len() as int) as usize)
    }
}

proof fn lemma_digits_grow(s: Seq<char>, from: int, upto: int)
    requires
        is_digits(s),
        0 <= from <= upto <= s.len(),
    ensures
        0 <= digits_value(s, from) <= digits_value(s, upto),
    decreases upto,
{
    if upto > 0 {
        if from < upto {
            lemma_digits_grow(s, from, upto - 1);
        } else {
            lemma_digits_grow(s, from - 1, upto - 1);
        }
    }
}

/// Reads a number in decimal digits.
pub fn parse_number(text: &str) -> (r: Option<usize>)
    ensures
        r == spec_number(text@),
{
    let chars = str_chars(text);
    if chars.len() == 0 {
        return None;
    }
    let mut value: usize = 0;
    let mut i: usize = 0;
    while i < chars.len()
        invariant
            i <= chars.len(),
            chars@ == text@,
            forall|k: int| 0 <= k < i ==> 0x30 <= (#[trigger] text@[k]) as u32 <= 0x39,
            value == digits_value(text@, i as int),
        decreases chars.len() - i,
    {
        let c = chars[i] as u32;
        if c < 0x30 || c > 0x39 {
            return None;
        }
        let d = (c - 0x30) as usize;
        if value > (usize::MAX - d) / 10 {
            proof {
                if is_digits(text@) {
                    lemma_digits_grow(text@, i + 1, text@.len() as int);
                }
            }
            return None;
        }
        value = value * 10 + d;
        i += 1;
    }
    Some(value)
}

/// Why a reply to a question with numbered options is not accepted.
#[derive(Debug)]
pub enum SelectionError {
    /// More than one option was chosen where one is allowed.
    OnlyOneAllowed,
    /// An entry of the reply is not a number or a range of numbers.
    Unparsable { item: String },
    /// A number of the reply is beyond the last option.
    TooBig { number: usize },
}

/// The mathematical value of a [`SelectionError`].
pub ghost enum SelectionFailure {
    OnlyOneAllowed,
    Unparsable { item: Seq<char> },
    TooBig { number: usize },
}

impl View for SelectionError {
    type V = SelectionFailure;

    open spec fn view(&self) -> SelectionFailure {
        match *self {
            SelectionError::OnlyOneAllowed => SelectionFailure::OnlyOneAllowed,
            SelectionError::Unparsable { item } => SelectionFailure::Unparsable { item: item@ },
            SelectionError::TooBig { number } => SelectionFailure::TooBig { number },
        }
    }
}

impl SelectionError {
    /// What to tell the user.
    pub fn message(&self) -> (r: String)
        ensures
            r@ == match self@ {
                SelectionFailure::OnlyOneAllowed => "Only one value is allowed to be specified.
"@,
                SelectionFailure::Unparsable { item } => "Error parsing item `"@ + item
                    + "`. Please make sure it is valid.
"@,
                SelectionFailure::TooBig { number } => "Number is too big: "@ + spec_decimal(
                    number as nat,
                ) + "
"@,
            },
    {
        match self {
            SelectionError::OnlyOneAllowed => "Only one value is allowed to be specified.
".to_owned(),
            SelectionError::Unparsable { item } => "Error parsing item `".to_owned().concat(
                item.as_str(),
            ).concat("`. Please make sure it is valid.
"),
            SelectionError::TooBig { number } => "Number is too big: ".to_owned().concat(
                decimal(*number as u64).as_str(),
            ).concat("
"),
        }
    }
}

/// The pattern of an entry of a reply: a number, or two numbers with `-`
/// between them, where either may be left out.
pub open spec fn selection_pattern() -> Seq<char> {
    "^[0-9]*-[0-9]*$|^[0-9]*$"@
}

/// Whether a text matches a pattern, as the `regex` crate decides it;
/// nothing where it does not accept the pattern.
pub uninterp spec fn regex_is_match(pattern: Seq<char>, text: Seq<char>) -> Option<bool>;

/// Matches a text against a pattern with `regex::Regex::new` and
/// `regex::Regex::is_match`.
///
/// Trusted: the result is what those give for this pattern and this text,
/// and nothing where the first refuses the pattern. It depends on the two
/// arguments alone.
#[verifier::external_body]
fn regex_match(pattern: &str, text: &str) -> (r: Option<bool>)
    ensures
        r == regex_is_match(pattern@, text@),
{
    match regex::Regex::new(pattern) {
        Ok(re) => Some(re.is_match(text)),
        Err(_) => None,
    }
}

/// The options from `first` up to, but without, `last`; none where `first`
/// is not below `last`.
pub open spec fn range_of(options: Seq<Seq<char>>, first: usize, last: usize) -> Seq<Seq<char>> {
    if first < last {
        options.subrange(first as int, last as int)
    } else {
        Seq::empty()
    }
}

/// The options that one entry of a reply chooses.
///
/// `matched` says whether the entry matches the pattern of an entry. An
/// entry that does not, or whose numbers cannot be read, is unparsable. An
/// entry with `-` chooses the options from the first number up to, but
/// without, the second; any other the option of its number. No number may
/// be beyond the last option.
pub open spec fn spec_select_item(
    matched: Option<bool>,
    item: Seq<char>,
    options: Seq<Seq<char>>,
) -> Result<
    Seq<Seq<char>>,
    SelectionFailure,
> {
    let dash = next_sep(item, '-', 0);
    if matched != Some(true) {
        Err(SelectionFailure::Unparsable { item })
    } else if dash < item.len() {
        match (
            spec_number(item.subrange(0, dash)),
            spec_number(item.subrange(dash + 1, item.len() as int)),
        ) {
            (Some(first), Some(last)) => if first > options.len() - 1 {
                Err(SelectionFailure::TooBig { number: first })
            } else if last > options.len() - 1 {
                Err(SelectionFailure::TooBig { number: last })
            } else {
                Ok(range_of(options, first, last))
            },
            _ => Err(SelectionFailure::Unparsable { item }),
        }
    } else {
        match spec_number(item) {
            Some(number) => if number > options.len() - 1 {
                Err(SelectionFailure::TooBig { number })
            } else {
                Ok(seq![options[number as int]])
            },
            None => Err(SelectionFailure::Unparsable { item }),
        }
    }
}

/// The index of the first `-` of a text, or its length.
fn find_dash(text: &str) -> (r: usize)
    ensures
        r == next_sep(text@, '-', 0),
        r <= text@.len(),
{
    let chars = str_chars(text);
    let mut i: usize = 0;
    while i < chars.len()
        invariant
            i <= chars.len(),
            chars@ == text@,
            next_sep(text@, '-', 0) == next_sep(text@, '-', i as int),
        decreases chars.len() - i,
    {
        if chars[i] == '-' {
            return i;
        }
        i += 1;
    }
    i
}

/// The options that one entry of a reply chooses.
pub fn select_item(matched: Option<bool>, item: &str, options: &Vec<String>) -> (r: Result<
    Vec<String>,
    SelectionError,
>)
    requires
        options.len() > 0,
    ensures
        match spec_select_item(matched, item@, texts(options@)) {
            Ok(chosen) => r is Ok && texts(r->Ok_0@) == chosen,
            Err(e) => r is Err && r->Err_0@ == e,
        },
{
    let is_match = match matched {
        Some(true) => true,
        _ => false,
    };
    if !is_match {
        return Err(SelectionError::Unparsable { item: item.to_owned() });
    }
    let n = item.unicode_len();
    let dash = find_dash(item);
    let mut chosen: Vec<String> = Vec::new();
    if dash < n {
        let first = parse_number(item.substring_char(0, dash));
        let last = parse_number(item.substring_char(dash + 1, n));
        match (first, last) {
            (Some(first), Some(last)) => {
                if first > options.len() - 1 {
                    return Err(SelectionError::TooBig { number: first });
                } else if last > options.len() - 1 {
                    return Err(SelectionError::TooBig { number: last });
                }
                let mut at: usize = first;
                assert(texts(chosen@) =~= range_of(texts(options@), first, first));
                while at < last
                    invariant
                        first <= at,
                        last < options.len(),
                        at <= last || first >= last,
                        first >= last ==> at == first,
                        texts(chosen@) == range_of(texts(options@), first, at),
                    decreases last - at,
                {
                    let ghost before = texts(chosen@);
                    chosen.push(options[at].clone());
                    assert(texts(chosen@) =~= before.push(texts(options@)[at as int]));
                    assert(texts(chosen@) =~= range_of(texts(options@), first, (at + 1) as usize));
                    at += 1;
                }
                assert(texts(chosen@) =~= range_of(texts(options@), first, last));
                Ok(chosen)
            },
            _ => Err(SelectionError::Unparsable { item: item.to_owned() }),
        }
    } else {
        match parse_number(item) {
            Some(number) => {
                if number > options.len() - 1 {
                    return Err(SelectionError::TooBig { number });
                }
                chosen.push(options[number].clone());
                assert(texts(chosen@) =~= seq![texts(options@)[number as int]]);
                Ok(chosen)
            },
            None => Err(SelectionError::Unparsable { item: item.to_owned() }),
        }
    }
}

/// What the entries of a reply from index `from` on choose, in order, or
/// why the first entry that is not accepted is not.
pub open spec fn select_items(items: Seq<Seq<char>>, options: Seq<Seq<char>>, from: int) -> Result<
    Seq<Seq<char>>,
    SelectionFailure,
>
    decreases items.len() - from,
{
    if from < 0 || from >= items.len() {
        Ok(Seq::empty())
    } else {
        match spec_select_item(
            regex_is_match(selection_pattern(), items[from]),
            items[from],
            options,
        ) {
            Err(e) => Err(e),
            Ok(chosen) => match select_items(items, options, from + 1) {
                Err(e) => Err(e),
                Ok(more) => Ok(chosen + more),
            },
        }
    }
}

/// The options that a reply to a question chooses.
///
/// An empty reply chooses the first option. Any other reply is a list of
/// entries with a space between them. Where one option is allowed, a reply
/// of several entries or with a `-` in its first entry is refused.
pub open spec fn spec_ask_question(
    input: Seq<char>,
    options: Seq<Seq<char>>,
    multi_allowed: bool,
) -> Result<
    Seq<Seq<char>>,
    SelectionFailure,
> {
    let items = spec_split(input, ' ');
    if input.len() == 0 {
        Ok(seq![options[0]])
    } else if !multi_allowed && (items.len() > 1 || next_sep(items[0], '-', 0) < items[0].len()) {
        Err(SelectionFailure::OnlyOneAllowed)
    } else {
        select_items(items, options, 0)
    }
}

/// What the entries of a reply from index `from` on choose.
fn select_from(
    items: &Vec<String>,
    options: &Vec<String>,
    from: usize,
    chosen: &mut Vec<String>,
) -> (r:
    Result<(), SelectionError>)
    requires
        options.len() > 0,
    ensures
        match select_items(texts(items@), texts(options@), from as int) {
            Ok(more) => r is Ok && texts(final(chosen)@) == texts(old(chosen)@) + more,
            Err(e) => r is Err && r->Err_0@ == e,
        },
    decreases items.len() - from,
{
    if from >= items.len() {
        assert(texts(chosen@) + Seq::<Seq<char>>::empty() =~= texts(chosen@));
        return Ok(());
    }
    let ghost before = texts(chosen@);
    let item = items[from].as_str();
    assert(texts(items@)[from as int] == item@);
    let matched = regex_match("^[0-9]*-[0-9]*$|^[0-9]*$", item);
    match select_item(matched, item, options) {
        Err(e) => Err(e),
        Ok(mut one) => {
            let ghost found = texts(one@);
            chosen.append(&mut one);
            assert(texts(chosen@) =~= before + found);
            let rest = select_from(items, options, from + 1, chosen);
            proof {
                if let Ok(more) = select_items(texts(items@), texts(options@), from + 1) {
                    assert(texts(chosen@) =~= before + (found + more));
                }
            }
            rest
        },
    }
}

/// Reads the reply to a question with numbered options.
///
/// The result is the options that the reply chooses, or the reason why the
/// reply is not accepted; the question is then asked again.
pub fn ask_question(input: &str, options: &Vec<String>, multi_allowed: bool) -> (r: Result<
    Vec<String>,
    SelectionError,
>)
    requires
        options.len() > 0,
    ensures
        match spec_ask_question(input@, texts(options@), multi_allowed) {
            Ok(chosen) => r is Ok && texts(r->Ok_0@) == chosen,
            Err(e) => r is Err && r->Err_0@ == e,
        },
{
    let mut chosen: Vec<String> = Vec::new();
    if input.unicode_len() == 0 {
        chosen.push(options[0].clone());
        assert(texts(chosen@) =~= seq![texts(options@)[0]]);
        return Ok(chosen);
    }
    let items = split_on(input, ' ');
    assert(items.len() > 0);
    assert(texts(items@)[0] == items@[0]@);
    if !multi_allowed && (items.len() > 1 || find_dash(items[0].as_str()) < items[0].as_str().unicode_len()) {
        return Err(SelectionError::OnlyOneAllowed);
    }
    assert(texts(chosen@) =~= Seq::<Seq<char>>::empty());
    match select_from(&items, options, 0, &mut chosen) {
        Ok(()) => {
            assert(texts(chosen@) =~= Seq::<Seq<char>>::empty() + texts(chosen@));
            Ok(chosen)
        },
        Err(e) => Err(e),
    }
}

/// The options as they are shown: each after its number in brackets.
pub open spec fn option_labels(options: Seq<Seq<char>>) -> Seq<Seq<char>> {
    Seq::new(options.len(), |i: int| "["@ + spec_decimal(i as nat) + "] "@ + options[i])
}

/// The options of a question as they are shown.
pub fn question_options(options: &Vec<String>) -> (r: Vec<String>)
    ensures
        texts(r@) == option_labels(texts(options@)),
{
    let mut out: Vec<String> = Vec::new();
    let mut i: usize = 0;
    while i < options.len()
        invariant
            i <= options.len(),
            out.len() == i,
            forall|k: int|
                0 <= k < i ==> (#[trigger] out@[k])@ == "["@ + spec_decimal(k as nat) + "] "@
                    + options@[k]@,
        decreases options.len() - i,
    {
        out.push(
            "[".to_owned().concat(decimal(i as u64).as_str()).concat("] ").concat(
                options[i].as_str(),
            ),
        );
        i += 1;
    }
    assert(texts(out@) =~= option_labels(texts(options@)));
    out
}

} // verus!
