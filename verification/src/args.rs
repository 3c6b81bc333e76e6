//! The command-line grammar shared by the tools: long options with values
//! (`--name value` or `--name=value`), flags, `--` and positional arguments,
//! and the number formats their values use.

use vstd::prelude::*;

use crate::text::{chars_of, owned, same_text, string_of};

verus! {

/// Why a command line was refused.
#[derive(Clone, Copy, Debug, PartialEq, Eq, Structural)]
pub enum CliError {
    /// `-h`, `--help` or the `help` subcommand: the caller prints help instead.
    Help,
    /// An option or flag that the command does not have.
    UnknownArgument,
    /// An option that needs a value was given none.
    MissingValue,
    /// A flag was given a value with `=`.
    UnexpectedValue,
    /// A value that does not parse or is out of range.
    InvalidValue,
    /// An option or flag given twice.
    DuplicateArgument,
    /// Two options that exclude each other.
    ConflictingArguments,
    /// A required argument is missing, or an option is given without the one it needs.
    MissingArgument,
    /// A positional argument that the command does not take.
    UnexpectedArgument,
    /// A command that needs a subcommand was given none.
    MissingSubcommand,
    /// A subcommand that does not exist.
    UnknownSubcommand,
}

/// One scanned piece of a command line: an occurrence of the option with the
/// given index and its value (`None` for a flag), or a positional argument.
pub enum ArgItem {
    Opt(int, Option<Seq<char>>),
    Pos(Seq<char>),
}

/// One scanned piece of a command line.
pub enum ScannedArg {
    Opt(usize, Option<String>),
    Pos(String),
}

impl View for ScannedArg {
    type V = ArgItem;

    open spec fn view(&self) -> ArgItem {
        match self {
            ScannedArg::Opt(i, v) => ArgItem::Opt(*i as int, match v {
                Some(s) => Some(s@),
                None => None,
            }),
            ScannedArg::Pos(s) => ArgItem::Pos(s@),
        }
    }
}

/// The views of scanned arguments.
pub open spec fn items_of(v: Seq<ScannedArg>) -> Seq<ArgItem> {
    v.map_values(|a: ScannedArg| a@)
}

/// The characters of each command-line token.
pub open spec fn tokens_of(args: Seq<&str>) -> Seq<Seq<char>> {
    args.map_values(|t: &str| t@)
}

/// Whether a token looks like an option: a `-` followed by anything.
pub open spec fn is_flag_like(t: Seq<char>) -> bool {
    t.len() >= 2 && t[0] == '-'
}

/// The index of the first `=` in `t` at or after `from`, or the length of `t`.
pub open spec fn first_eq_from(t: Seq<char>, from: int) -> int
    decreases t.len() - from,
{
    if from >= t.len() {
        t.len() as int
    } else if t[from] == '=' {
        from
    } else {
        first_eq_from(t, from + 1)
    }
}

/// The name of a long option token `--name` or `--name=value`.
pub open spec fn long_name(t: Seq<char>) -> Seq<char> {
    t.subrange(2, first_eq_from(t, 2))
}

/// The value attached to a long option token with `=`.
pub open spec fn long_value(t: Seq<char>) -> Option<Seq<char>> {
    let e = first_eq_from(t, 2);
    if e < t.len() {
        Some(t.subrange(e + 1, t.len() as int))
    } else {
        None
    }
}

/// The index of `name` among `names`, or -1.
pub open spec fn option_index(names: Seq<Seq<char>>, name: Seq<char>) -> int
    decreases names.len(),
{
    if names.len() == 0 {
        -1
    } else if names.last() == name {
        names.len() - 1
    } else {
        option_index(names.drop_last(), name)
    }
}

/// `item` put before the items of `r`.
pub open spec fn prepend(item: ArgItem, r: Result<Seq<ArgItem>, CliError>) -> Result<Seq<ArgItem>, CliError> {
    match r {
        Ok(s) => Ok(seq![item] + s),
        Err(e) => Err(e),
    }
}

/// The items of `prefix` put before the items of `r`.
pub open spec fn prepend_all(prefix: Seq<ArgItem>, r: Result<Seq<ArgItem>, CliError>) -> Result<Seq<ArgItem>, CliError> {
    match r {
        Ok(s) => Ok(prefix + s),
        Err(e) => Err(e),
    }
}

/// Scans the command-line tokens of a command whose long options are `names`
/// (those marked in `takes_value` need a value). After `--` every token is
/// positional. `-h` and `--help` ask for help; another token that starts with
/// `-` and is not a known long option is refused.
pub open spec fn scan(tokens: Seq<Seq<char>>, names: Seq<Seq<char>>, takes_value: Seq<bool>, trailing: bool) -> Result<Seq<ArgItem>, CliError>
    decreases tokens.len(),
{
    if tokens.len() == 0 {
        Ok(Seq::empty())
    } else {
        let t = tokens[0];
        let rest = tokens.drop_first();
        if trailing {
            prepend(ArgItem::Pos(t), scan(rest, names, takes_value, true))
        } else if t == "--"@ {
            scan(rest, names, takes_value, true)
        } else if t == "-h"@ || t == "--help"@ {
            Err(CliError::Help)
        } else if t.len() >= 2 && t[0] == '-' && t[1] == '-' {
            let i = option_index(names, long_name(t));
            if i < 0 {
                Err(CliError::UnknownArgument)
            } else if takes_value[i] {
                match long_value(t) {
                    Some(v) => prepend(ArgItem::Opt(i, Some(v)), scan(rest, names, takes_value, false)),
                    None => if rest.len() == 0 || is_flag_like(rest[0]) {
                        Err(CliError::MissingValue)
                    } else {
                        prepend(ArgItem::Opt(i, Some(rest[0])), scan(rest.drop_first(), names, takes_value, false))
                    },
                }
            } else if long_value(t) is Some {
                Err(CliError::UnexpectedValue)
            } else {
                prepend(ArgItem::Opt(i, None), scan(rest, names, takes_value, false))
            }
        } else if is_flag_like(t) {
            Err(CliError::UnknownArgument)
        } else {
            prepend(ArgItem::Pos(t), scan(rest, names, takes_value, false))
        }
    }
}

proof fn lemma_option_index_bound(names: Seq<Seq<char>>, name: Seq<char>)
    ensures
        -1 <= option_index(names, name) < names.len(),
    decreases names.len(),
{
    if names.len() > 0 && names.last() != name {
        lemma_option_index_bound(names.drop_last(), name);
    }
}

/// The options that a scan yields are among the command's options.
pub proof fn lemma_scan_indices(tokens: Seq<Seq<char>>, names: Seq<Seq<char>>, takes_value: Seq<bool>, trailing: bool)
    ensures
        scan(tokens, names, takes_value, trailing) matches Ok(items) ==> forall|j: int|
            0 <= j < items.len() ==> (#[trigger] items[j] matches ArgItem::Opt(k, _) ==> 0 <= k < names.len()),
    decreases tokens.len(),
{
    if tokens.len() > 0 {
        let t = tokens[0];
        let rest = tokens.drop_first();
        lemma_scan_indices(rest, names, takes_value, true);
        lemma_scan_indices(rest, names, takes_value, false);
        if rest.len() > 0 {
            lemma_scan_indices(rest.drop_first(), names, takes_value, false);
        }
        lemma_option_index_bound(names, long_name(t));
        if let Ok(items) = scan(tokens, names, takes_value, trailing) {
            assert forall|j: int| 0 <= j < items.len() implies (#[trigger] items[j] matches ArgItem::Opt(k, _) ==> 0 <= k < names.len()) by {
                if j > 0 {
                    if trailing || t == "--"@ {
                    } else {
                    }
                }
            }
        }
    }
}

/// Arguments without any option have no duplicate.
pub proof fn lemma_no_options_no_duplicate(items: Seq<ArgItem>)
    requires
        forall|j: int| 0 <= j < items.len() ==> #[trigger] items[j] is Pos,
    ensures
        !has_duplicate(items),
    decreases items.len(),
{
    if items.len() > 0 {
        assert(items.last() == items[items.len() - 1]);
        assert forall|j: int| 0 <= j < items.drop_last().len() implies #[trigger] items.drop_last()[j] is Pos by {
            assert(items.drop_last()[j] == items[j]);
        }
        lemma_no_options_no_duplicate(items.drop_last());
    }
}

proof fn lemma_prepend_all_push(prefix: Seq<ArgItem>, item: ArgItem, r: Result<Seq<ArgItem>, CliError>)
    ensures
        prepend_all(prefix, prepend(item, r)) == prepend_all(prefix.push(item), r),
{
    match r {
        Ok(s) => {
            assert(prefix + (seq![item] + s) =~= prefix.push(item) + s);
        },
        Err(_) => {},
    }
}

/// The index of the first `=` at or after position 2.
fn first_eq(t: &[char]) -> (r: usize)
    requires
        t@.len() >= 2,
    ensures
        r as int == first_eq_from(t@, 2),
        2 <= r <= t@.len(),
{
    let mut i: usize = 2;
    while i < t.len() && t[i] != '='
        invariant
            2 <= i <= t@.len(),
            first_eq_from(t@, 2) == first_eq_from(t@, i as int),
        decreases t@.len() - i,
    {
        i = i + 1;
    }
    i
}

/// The index of `name` among `names`, if it is there.
fn find_option(names: &[&str], name: &[char]) -> (r: Option<usize>)
    ensures
        match r {
            Some(i) => i as int == option_index(tokens_of(names@), name@) && i < names@.len(),
            None => option_index(tokens_of(names@), name@) == -1,
        },
{
    let text = string_of(name);
    let mut k: usize = names.len();
    assert(tokens_of(names@).take(k as int) =~= tokens_of(names@));
    while k > 0
        invariant
            k <= names@.len(),
            text@ == name@,
            option_index(tokens_of(names@), name@) == option_index(tokens_of(names@).take(k as int), name@),
        decreases k,
    {
        let ghost s = tokens_of(names@).take(k as int);
        assert(s.last() == names@[k - 1]@);
        if same_text(names[k - 1], text.as_str()) {
            return Some(k - 1);
        }
        assert(s.drop_last() =~= tokens_of(names@).take(k - 1));
        k = k - 1;
    }
    None
}

/// Scans the command-line tokens `tokens` of a command whose long options are
/// `names`; see [`scan`].
pub fn scan_args(tokens: &[&str], names: &[&str], takes_value: &[bool]) -> (r: Result<Vec<ScannedArg>, CliError>)
    requires
        names@.len() == takes_value@.len(),
    ensures
        match r {
            Ok(v) => scan(tokens_of(tokens@), tokens_of(names@), takes_value@, false) == Ok::<Seq<ArgItem>, CliError>(items_of(v@)),
            Err(e) => scan(tokens_of(tokens@), tokens_of(names@), takes_value@, false) == Err::<Seq<ArgItem>, CliError>(e),
        },
{
    let ghost all = tokens_of(tokens@);
    let ghost nm = tokens_of(names@);
    let mut items: Vec<ScannedArg> = Vec::new();
    let mut trailing = false;
    let mut i: usize = 0;
    assert(all.skip(0) =~= all);
    assert(items_of(items@) =~= Seq::<ArgItem>::empty());
    while i < tokens.len()
        invariant
            i <= tokens@.len(),
            all == tokens_of(tokens@),
            nm == tokens_of(names@),
            names@.len() == takes_value@.len(),
            scan(all, nm, takes_value@, false) == prepend_all(items_of(items@), scan(all.skip(i as int), nm, takes_value@, trailing)),
        decreases tokens@.len() - i,
    {
        let ghost rest = all.skip(i as int);
        let ghost before = items_of(items@);
        assert(rest[0] == all[i as int]);
        assert(rest.drop_first() =~= all.skip(i + 1));
        let t = chars_of(tokens[i]);
        let is_escape = t.len() == 2 && t[0] == '-' && t[1] == '-';
        let is_help = (t.len() == 2 && t[0] == '-' && t[1] == 'h') || same_text(tokens[i], "--help");
        proof {
            reveal_strlit("--");
            reveal_strlit("-h");
            reveal_strlit("--help");
            if rest[0] == "--"@ {
                assert(t@[0] == '-' && t@[1] == '-');
            }
            if is_escape {
                assert(t@ =~= "--"@) by {
                    reveal_strlit("--");
                }
            }
            if rest[0] == "-h"@ {
                reveal_strlit("-h");
                assert(t@[0] == '-' && t@[1] == 'h');
            }
            if t.len() == 2 && t[0] == '-' && t[1] == 'h' {
                assert(t@ =~= "-h"@) by {
                    reveal_strlit("-h");
                }
            }
            reveal_strlit("--");
        }
        if trailing {
            items.push(ScannedArg::Pos(owned(tokens[i])));
            proof {
                lemma_prepend_all_push(before, ArgItem::Pos(rest[0]), scan(rest.drop_first(), nm, takes_value@, true));
                assert(items_of(items@) =~= before.push(ArgItem::Pos(rest[0])));
            }
            i = i + 1;
        } else if is_escape {
            trailing = true;
            i = i + 1;
        } else if is_help {
            return Err(CliError::Help);
        } else if t.len() >= 2 && t[0] == '-' && t[1] == '-' {
            let e = first_eq(t.as_slice());
            let found = find_option(names, &t.as_slice()[2..e]);
            assert(t@.subrange(2, e as int) == long_name(rest[0]));
            match found {
                None => {
                    return Err(CliError::UnknownArgument);
                },
                Some(k) => {
                    if takes_value[k] {
                        if e < t.len() {
                            let v = string_of(&t.as_slice()[e + 1..t.len()]);
                            items.push(ScannedArg::Opt(k, Some(v)));
                            proof {
                                lemma_prepend_all_push(before, ArgItem::Opt(k as int, Some(v@)), scan(rest.drop_first(), nm, takes_value@, false));
                                assert(items_of(items@) =~= before.push(ArgItem::Opt(k as int, Some(v@))));
                            }
                            i = i + 1;
                        } else {
                            if i + 1 >= tokens.len() {
                                return Err(CliError::MissingValue);
                            }
                            let next = chars_of(tokens[i + 1]);
                            assert(rest.drop_first()[0] == all[i + 1]);
                            if next.len() >= 2 && next[0] == '-' {
                                return Err(CliError::MissingValue);
                            }
                            items.push(ScannedArg::Opt(k, Some(owned(tokens[i + 1]))));
                            proof {
                                assert(rest.drop_first().drop_first() =~= all.skip(i + 2));
                                lemma_prepend_all_push(before, ArgItem::Opt(k as int, Some(all[i + 1])), scan(all.skip(i + 2), nm, takes_value@, false));
                                assert(items_of(items@) =~= before.push(ArgItem::Opt(k as int, Some(all[i + 1]))));
                            }
                            i = i + 2;
                        }
                    } else {
                        if e < t.len() {
                            return Err(CliError::UnexpectedValue);
                        }
                        items.push(ScannedArg::Opt(k, None));
                        proof {
                            lemma_prepend_all_push(before, ArgItem::Opt(k as int, None), scan(rest.drop_first(), nm, takes_value@, false));
                            assert(items_of(items@) =~= before.push(ArgItem::Opt(k as int, None)));
                        }
                        i = i + 1;
                    }
                },
            }
        } else if t.len() >= 2 && t[0] == '-' {
            return Err(CliError::UnknownArgument);
        } else {
            items.push(ScannedArg::Pos(owned(tokens[i])));
            proof {
                lemma_prepend_all_push(before, ArgItem::Pos(rest[0]), scan(rest.drop_first(), nm, takes_value@, false));
                assert(items_of(items@) =~= before.push(ArgItem::Pos(rest[0])));
            }
            i = i + 1;
        }
    }
    assert(all.skip(i as int) =~= Seq::<Seq<char>>::empty());
    assert(items_of(items@) + Seq::<ArgItem>::empty() =~= items_of(items@));
    Ok(items)
}


/// The value of the first occurrence of option `k`: its value, or an empty
/// text for a flag; `None` when the option is absent.
pub open spec fn value_for(items: Seq<ArgItem>, k: int) -> Option<Seq<char>>
    decreases items.len(),
{
    if items.len() == 0 {
        None
    } else {
        let prev = value_for(items.drop_last(), k);
        if prev is Some {
            prev
        } else {
            match items.last() {
                ArgItem::Opt(i, v) => if i == k {
                    Some(
                        match v {
                            Some(x) => x,
                            None => Seq::empty(),
                        },
                    )
                } else {
                    None
                },
                ArgItem::Pos(_) => None,
            }
        }
    }
}

/// The positional arguments, in order.
pub open spec fn positionals(items: Seq<ArgItem>) -> Seq<Seq<char>>
    decreases items.len(),
{
    if items.len() == 0 {
        Seq::empty()
    } else {
        match items.last() {
            ArgItem::Pos(p) => positionals(items.drop_last()).push(p),
            ArgItem::Opt(_, _) => positionals(items.drop_last()),
        }
    }
}

/// Whether some option occurs twice.
pub open spec fn has_duplicate(items: Seq<ArgItem>) -> bool
    decreases items.len(),
{
    if items.len() == 0 {
        false
    } else {
        has_duplicate(items.drop_last()) || match items.last() {
            ArgItem::Opt(k, _) => value_for(items.drop_last(), k) is Some,
            ArgItem::Pos(_) => false,
        }
    }
}

proof fn lemma_duplicate_extends(s: Seq<ArgItem>, m: int)
    requires
        0 <= m <= s.len(),
        has_duplicate(s.take(m)),
    ensures
        has_duplicate(s),
    decreases s.len() - m,
{
    if m < s.len() {
        assert(s.take(m + 1).drop_last() =~= s.take(m));
        lemma_duplicate_extends(s, m + 1);
    } else {
        assert(s.take(m) =~= s);
    }
}

/// The options and positional arguments of a scanned command line.
pub struct CollectedArgs {
    /// For each option, the value of its occurrence (empty for a flag).
    pub values: Vec<Option<String>>,
    pub positionals: Vec<String>,
}

/// Gathers the scanned arguments of a command with `n` options, refusing an
/// option or flag that is given twice.
pub fn collect_args(items: &Vec<ScannedArg>, n: usize) -> (r: Result<CollectedArgs, CliError>)
    requires
        forall|j: int| 0 <= j < items@.len() ==> (#[trigger] items@[j] matches ScannedArg::Opt(k, _) ==> k < n),
    ensures
        r is Err == has_duplicate(items_of(items@)),
        r matches Err(e) ==> e == CliError::DuplicateArgument,
        r matches Ok(c) ==> {
            &&& c.values@.len() == n
            &&& forall|k: int| 0 <= k < n ==> #[trigger] crate::text::opt_text(c.values@[k]) == value_for(items_of(items@), k)
            &&& crate::text::texts(c.positionals@) == positionals(items_of(items@))
        },
{
    let mut values: Vec<Option<String>> = Vec::new();
    let mut k: usize = 0;
    while k < n
        invariant
            k <= n,
            values@.len() == k,
            forall|x: int| 0 <= x < k ==> values@[x] is None,
        decreases n - k,
    {
        values.push(None);
        k = k + 1;
    }
    let mut pos: Vec<String> = Vec::new();
    let ghost all = items_of(items@);
    let mut j: usize = 0;
    assert(all.take(0) =~= Seq::<ArgItem>::empty());
    assert(crate::text::texts(pos@) =~= Seq::<Seq<char>>::empty());
    while j < items.len()
        invariant
            j <= items@.len(),
            all == items_of(items@),
            values@.len() == n,
            forall|q: int| 0 <= q < items@.len() ==> (#[trigger] items@[q] matches ScannedArg::Opt(k, _) ==> k < n),
            !has_duplicate(all.take(j as int)),
            forall|x: int| 0 <= x < n ==> #[trigger] crate::text::opt_text(values@[x]) == value_for(all.take(j as int), x),
            crate::text::texts(pos@) == positionals(all.take(j as int)),
        decreases items@.len() - j,
    {
        let ghost prefix = all.take(j as int);
        assert(all.take(j + 1).drop_last() =~= prefix);
        assert(all.take(j + 1).last() == all[j as int]);
        match &items[j] {
            ScannedArg::Opt(k, v) => {
                let k = *k;
                assert(items@[j as int] matches ScannedArg::Opt(kk, _) && kk == k);
                if values[k].is_some() {
                    proof {
                        assert(crate::text::opt_text(values@[k as int]) == value_for(prefix, k as int));
                        assert(has_duplicate(all.take(j + 1)));
                        lemma_duplicate_extends(all, j + 1);
                    }
                    return Err(CliError::DuplicateArgument);
                }
                assert(crate::text::opt_text(values@[k as int]) == value_for(prefix, k as int));
                let value = match v {
                    Some(x) => x.clone(),
                    None => String::new(),
                };
                let ghost old_values = values@;
                values.set(k, Some(value));
                assert(crate::text::texts(pos@) == positionals(all.take(j + 1)));
                assert forall|x: int| 0 <= x < n implies #[trigger] crate::text::opt_text(values@[x]) == value_for(all.take(j + 1), x) by {
                    assert(crate::text::opt_text(old_values[x]) == value_for(prefix, x));
                }
            },
            ScannedArg::Pos(p) => {
                assert forall|x: int| 0 <= x < n implies #[trigger] crate::text::opt_text(values@[x]) == value_for(all.take(j + 1), x) by {
                    assert(crate::text::opt_text(values@[x]) == value_for(prefix, x));
                }
                pos.push(p.clone());
                assert(crate::text::texts(pos@) =~= crate::text::texts(pos@).drop_last().push(p@));
            },
        }
        j = j + 1;
    }
    assert(all.take(items@.len() as int) =~= all);
    Ok(CollectedArgs { values, positionals: pos })
}

/// Whether `c` is an ASCII decimal digit.
pub open spec fn is_digit(c: char) -> bool {
    '0' <= c <= '9'
}

/// Whether `s` is made of ASCII decimal digits only.
pub open spec fn all_digits(s: Seq<char>) -> bool {
    forall|i: int| 0 <= i < s.len() ==> is_digit(#[trigger] s[i])
}

/// The number that the decimal digits `s` write.
pub open spec fn digits_value(s: Seq<char>) -> nat
    decreases s.len(),
{
    if s.len() == 0 {
        0
    } else {
        digits_value(s.drop_last()) * 10 + ((s.last() as int) - ('0' as int)) as nat
    }
}

/// A `u32` option value, read as `i64::from_str` reads it (an optional `+`
/// or `-`, then decimal digits) and accepted when it lies in `0..=u32::MAX`.
pub open spec fn u32_value(s: Seq<char>) -> Option<u32> {
    let signed = s.len() > 0 && (s[0] == '+' || s[0] == '-');
    let negative = s.len() > 0 && s[0] == '-';
    let d = if signed {
        s.drop_first()
    } else {
        s
    };
    if d.len() == 0 || !all_digits(d) || digits_value(d) > u32::MAX || (negative && digits_value(d) != 0) {
        None
    } else {
        Some(digits_value(d) as u32)
    }
}

/// A `u64` option value, read as `u64::from_str` reads it (an optional `+`,
/// then decimal digits) and accepted when it is at least `min`.
pub open spec fn u64_value(s: Seq<char>, min: u64) -> Option<u64> {
    let d = if s.len() > 0 && s[0] == '+' {
        s.drop_first()
    } else {
        s
    };
    if d.len() == 0 || !all_digits(d) || digits_value(d) > u64::MAX || digits_value(d) < min {
        None
    } else {
        Some(digits_value(d) as u64)
    }
}

/// The value of the digits `d` when it is at most `limit`, else `None`;
/// also `None` when `d` holds anything but digits.
fn digits_up_to(d: &[char], limit: u128) -> (r: Option<u128>)
    requires
        limit < u128::MAX / 16,
    ensures
        match r {
            Some(v) => all_digits(d@) && v == digits_value(d@) && v <= limit,
            None => !all_digits(d@) || digits_value(d@) > limit,
        },
{
    let mut acc: u128 = 0;
    let mut over = false;
    let mut i: usize = 0;
    while i < d.len()
        invariant
            i <= d@.len(),
            limit < u128::MAX / 16,
            all_digits(d@.take(i as int)),
            !over ==> acc == digits_value(d@.take(i as int)) && acc <= limit,
            over ==> digits_value(d@.take(i as int)) > limit,
        decreases d@.len() - i,
    {
        let c = d[i];
        if c < '0' || c > '9' {
            assert(!is_digit(d@[i as int]));
            return None;
        }
        assert(d@.take(i + 1).drop_last() =~= d@.take(i as int));
        assert(all_digits(d@.take(i + 1))) by {
            assert forall|k: int| 0 <= k < i + 1 implies is_digit(#[trigger] d@.take(i + 1)[k]) by {
                if k < i {
                    assert(d@.take(i + 1)[k] == d@.take(i as int)[k]);
                }
            }
        }
        if !over {
            let dv = (c as u32 - '0' as u32) as u128;
            acc = acc * 10 + dv;
            if acc > limit {
                over = true;
            }
        }
        i = i + 1;
    }
    assert(d@.take(d@.len() as int) =~= d@);
    if over {
        None
    } else {
        Some(acc)
    }
}

/// Reads a `u32` option value; see [`u32_value`].
pub fn parse_u32_value(s: &str) -> (r: Option<u32>)
    ensures
        r == u32_value(s@),
{
    let c = chars_of(s);
    let signed = c.len() > 0 && (c[0] == '+' || c[0] == '-');
    let negative = c.len() > 0 && c[0] == '-';
    let start: usize = if signed { 1 } else { 0 };
    let d = &c.as_slice()[start..c.len()];
    proof {
        if signed {
            assert(d@ =~= s@.drop_first());
        } else {
            assert(d@ =~= s@);
        }
    }
    if d.len() == 0 {
        return None;
    }
    match digits_up_to(d, 0xffff_ffff) {
        None => None,
        Some(v) => {
            if negative && v != 0 {
                None
            } else {
                Some(v as u32)
            }
        },
    }
}

/// Reads a `u64` option value that must be at least `min`; see [`u64_value`].
pub fn parse_u64_value(s: &str, min: u64) -> (r: Option<u64>)
    ensures
        r == u64_value(s@, min),
{
    let c = chars_of(s);
    let start: usize = if c.len() > 0 && c[0] == '+' { 1 } else { 0 };
    let d = &c.as_slice()[start..c.len()];
    proof {
        if start == 1 {
            assert(d@ =~= s@.drop_first());
        } else {
            assert(d@ =~= s@);
        }
    }
    if d.len() == 0 {
        return None;
    }
    match digits_up_to(d, 0xffff_ffff_ffff_ffff) {
        None => None,
        Some(v) => {
            if v < min as u128 {
                None
            } else {
                Some(v as u64)
            }
        },
    }
}

} // verus!
