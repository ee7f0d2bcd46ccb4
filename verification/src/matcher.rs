//! The text matcher: the pattern that recognizes a command in a message, its
//! compilation and its use.
//!
//! The pattern is written here; the `regex` crate compiles and runs it.

use crate::text::{decimal, decimal_string, view_of, views};
use vstd::prelude::*;
use vstd::string::StringExecFns;
use vstd::string::StrSliceExecFns;

verus! {

/// `regex::Regex`, a compiled pattern. Nothing inside it is visible here.
#[verifier::external_type_specification]
#[verifier::external_body]
pub struct ExRegex(regex::Regex);

/// `regex::Error`, the reason why a pattern did not compile. Nothing inside
/// it is visible here.
#[verifier::external_type_specification]
#[verifier::external_body]
pub struct ExRegexError(regex::Error);

/// Whether the dot of a pattern matches a line break too. The arguments of a
/// command may run over several lines, so it does.
pub const DOT_MATCHES_LINE_BREAK: bool = true;

/// What a matcher is compiled from: the pattern, whether upper and lower case
/// count as the same, and whether the dot matches a line break too.
pub struct PatternSource {
    pub pattern: Seq<char>,
    pub fold_case: bool,
    pub dot_matches_line_break: bool,
}

/// Whether `regex::RegexBuilder::build` makes a regex of `pattern` under the
/// two options, with every other setting of the builder as it comes.
pub uninterp spec fn regex_compiles(
    pattern: Seq<char>,
    fold_case: bool,
    dot_matches_line_break: bool,
) -> bool;

/// What `regex::Regex::captures` finds in `text` for the regex that
/// `regex::RegexBuilder` builds from `pattern` under the two options: nothing
/// where the text does not match, else the text of the groups named `prefix`,
/// `cmd` and `args`, in this order, each absent where the group took no part
/// in the match or the pattern has no group of that name.
pub uninterp spec fn regex_captures(
    pattern: Seq<char>,
    fold_case: bool,
    dot_matches_line_break: bool,
    text: Seq<char>,
) -> Option<(Option<Seq<char>>, Option<Seq<char>>, Option<Seq<char>>)>;

/// Whether a matcher can be compiled from `source`.
pub open spec fn compiles(source: PatternSource) -> bool {
    regex_compiles(source.pattern, source.fold_case, source.dot_matches_line_break)
}

/// What a matcher compiled from `source` captures in `text`.
pub open spec fn captured(source: PatternSource, text: Seq<char>) -> Option<
    (Option<Seq<char>>, Option<Seq<char>>, Option<Seq<char>>),
> {
    regex_captures(source.pattern, source.fold_case, source.dot_matches_line_break, text)
}

/// The views of three optional strings.
pub open spec fn groups_view(g: Option<(Option<String>, Option<String>, Option<String>)>) -> Option<
    (Option<Seq<char>>, Option<Seq<char>>, Option<Seq<char>>),
> {
    match g {
        Some((p, c, a)) => Some((view_of(p), view_of(c), view_of(a))),
        None => None,
    }
}

/// A compiled pattern, together with the text and the options that it was
/// compiled from. `Matcher::compile` is the only way to make one, and what
/// is claimed of `Matcher::captures` rests on that.
pub struct Matcher {
    pattern: String,
    fold_case: bool,
    dot_matches_line_break: bool,
    regex: regex::Regex,
}

impl Matcher {
    /// What the matcher was compiled from.
    pub closed spec fn source(&self) -> PatternSource {
        PatternSource {
            pattern: self.pattern@,
            fold_case: self.fold_case,
            dot_matches_line_break: self.dot_matches_line_break,
        }
    }

    /// Calls `regex::RegexBuilder::new`, `case_insensitive`,
    /// `dot_matches_new_line` and `build`. Whether a regex comes back depends
    /// on the pattern and the two options alone; which patterns compile is
    /// left to the crate. A matcher that comes back remembers the pattern and
    /// the options it was made from.
    #[verifier::external_body]
    pub(crate) fn compile(pattern: String, fold_case: bool, dot_matches_line_break: bool) -> (r:
        Result<Matcher, regex::Error>)
        ensures
            (r is Ok) == regex_compiles(pattern@, fold_case, dot_matches_line_break),
            match r {
                Ok(m) => m.source() == (PatternSource {
                    pattern: pattern@,
                    fold_case,
                    dot_matches_line_break,
                }),
                Err(_) => true,
            },
    {
        let built = regex::RegexBuilder::new(pattern.as_str())
            .case_insensitive(fold_case)
            .dot_matches_new_line(dot_matches_line_break)
            .build();
        match built {
            Ok(regex) => Ok(Matcher { pattern, fold_case, dot_matches_line_break, regex }),
            Err(e) => Err(e),
        }
    }

    /// Calls `regex::Regex::captures` and `regex::Captures::name`, and copies
    /// the text of the groups `prefix`, `cmd` and `args`. The claim is that
    /// the result depends on the pattern, the two options and the text alone.
    #[verifier::external_body]
    pub(crate) fn captures(&self, text: &str) -> (r: Option<
        (Option<String>, Option<String>, Option<String>),
    >)
        ensures
            groups_view(r) == regex_captures(
                self.source().pattern,
                self.source().fold_case,
                self.source().dot_matches_line_break,
                text@,
            ),
    {
        self.regex.captures(text).map(
            |c|
                (
                    c.name("prefix").map(|m| m.as_str().to_string()),
                    c.name("cmd").map(|m| m.as_str().to_string()),
                    c.name("args").map(|m| m.as_str().to_string()),
                ),
        )
    }
}

/// Calls `to_string` on a `regex::Error`: the error in words. Nothing is
/// claimed about the words.
#[verifier::external_body]
pub(crate) fn error_text(e: &regex::Error) -> (r: String) {
    e.to_string()
}

/// The names among the first `n` of `names` that are `len` characters long, in
/// the order in which they stand.
pub open spec fn of_length(names: Seq<Seq<char>>, n: nat, len: nat) -> Seq<Seq<char>>
    decreases n,
{
    if n == 0 || n > names.len() {
        Seq::empty()
    } else {
        let before = of_length(names, (n - 1) as nat, len);
        if names[n - 1].len() == len {
            before.push(names[n - 1])
        } else {
            before
        }
    }
}

/// The names of at most `top` characters, the longest first; names of one
/// length keep the order in which they stand.
pub open spec fn longest_first(names: Seq<Seq<char>>, top: nat) -> Seq<Seq<char>>
    decreases top,
{
    if top == 0 {
        of_length(names, names.len(), 0)
    } else {
        of_length(names, names.len(), top) + longest_first(names, (top - 1) as nat)
    }
}

/// The length of the longest among the first `n` of `names`.
pub open spec fn longest(names: Seq<Seq<char>>, n: nat) -> nat
    decreases n,
{
    if n == 0 || n > names.len() {
        0
    } else {
        let before = longest(names, (n - 1) as nat);
        if names[n - 1].len() > before {
            names[n - 1].len()
        } else {
            before
        }
    }
}

/// All of `names`, the longest first.
pub open spec fn by_length(names: Seq<Seq<char>>) -> Seq<Seq<char>> {
    longest_first(names, longest(names, names.len()))
}

/// The names with a bar between each two: the alternatives of a pattern, tried
/// from left to right.
pub open spec fn alternation(names: Seq<Seq<char>>, n: nat) -> Seq<char>
    decreases n,
{
    if n == 0 || n > names.len() {
        Seq::empty()
    } else if n == 1 {
        names[0]
    } else {
        alternation(names, (n - 1) as nat) + "|"@ + names[n - 1]
    }
}

/// The pattern for messages in a guild: a mention of the client, plain or with
/// an exclamation mark, and any white space, or else a prefix of one to five
/// characters that are no white space, as short as can be; then one of the
/// names; then the end, or white space and the arguments.
pub open spec fn guild_pattern(client_id: u64, names: Seq<Seq<char>>) -> Seq<char> {
    "^(?:(?:<@"@ + decimal(client_id as nat) + ">\\s*)|(?:<@!"@ + decimal(client_id as nat)
        + ">\\s*)|(?P<prefix>\\S{1,5}?))(?P<cmd>"@ + alternation(names, names.len())
        + ")(?:$|\\s+(?P<args>.*))$"@
}

/// The pattern for direct messages: a mention of the client and white space,
/// or a dollar sign, or nothing; then one of the names; then the end, or white
/// space and the arguments.
pub open spec fn dm_pattern(client_id: u64, names: Seq<Seq<char>>) -> Seq<char> {
    "^(?:(?:<@"@ + decimal(client_id as nat) + ">\\s+)|(?:<@!"@ + decimal(client_id as nat)
        + ">\\s+)|(\\$)|())(?P<cmd>"@ + alternation(names, names.len())
        + ")(?:$|\\s+(?P<args>.*))$"@
}

/// Puts the names in the order in which the pattern tries them: the longest
/// first, names of one length in the order given.
pub fn sort_names(names: &Vec<String>) -> (r: Vec<String>)
    ensures
        views(r@) == by_length(views(names@)),
{
    let ghost all = views(names@);
    let mut lens: Vec<usize> = Vec::new();
    let mut top: usize = 0;
    let mut i: usize = 0;
    while i < names.len()
        invariant
            i <= names.len(),
            all == views(names@),
            lens@.len() == i,
            forall|j: int| 0 <= j < i ==> #[trigger] lens@[j] == all[j].len(),
            top == longest(all, i as nat),
        decreases names.len() - i,
    {
        let l: usize = names[i].as_str().unicode_len();
        lens.push(l);
        if l > top {
            top = l;
        }
        i = i + 1;
    }
    let mut out: Vec<String> = Vec::new();
    let mut len: usize = top;
    let ghost mut done: Seq<Seq<char>> = Seq::empty();
    loop
        invariant_except_break
            views(out@) == done,
        invariant
            len <= top,
            all == views(names@),
            lens@.len() == names.len(),
            forall|j: int| 0 <= j < names.len() ==> #[trigger] lens@[j] == all[j].len(),
            done + longest_first(all, len as nat) == longest_first(all, top as nat),
        ensures
            views(out@) == longest_first(all, top as nat),
        decreases len,
    {
        let mut k: usize = 0;
        while k < names.len()
            invariant
                k <= names.len(),
                all == views(names@),
                lens@.len() == names.len(),
                forall|j: int| 0 <= j < names.len() ==> #[trigger] lens@[j] == all[j].len(),
                views(out@) == done + of_length(all, k as nat, len as nat),
            decreases names.len() - k,
        {
            if lens[k] == len {
                out.push(names[k].clone());
                assert(views(out@) =~= (done + of_length(all, k as nat, len as nat)).push(all[k as int]));
                assert((done + of_length(all, k as nat, len as nat)).push(all[k as int]) =~= done
                    + of_length(all, (k + 1) as nat, len as nat));
            }
            k = k + 1;
        }
        if len == 0 {
            assert(views(out@) == longest_first(all, top as nat));
            break;
        }
        proof {
            let here = of_length(all, all.len(), len as nat);
            assert((done + here) + longest_first(all, (len - 1) as nat) =~= done + (here
                + longest_first(all, (len - 1) as nat)));
            done = done + here;
        }
        len = len - 1;
    }
    out
}

/// Writes the names with a bar between each two.
pub fn join_names(names: &Vec<String>) -> (r: String)
    ensures
        r@ == alternation(views(names@), names@.len()),
{
    let mut out = String::new();
    let mut i: usize = 0;
    while i < names.len()
        invariant
            i <= names.len(),
            out@ == alternation(views(names@), i as nat),
        decreases names.len() - i,
    {
        if i > 0 {
            out.append("|");
        }
        out.append(names[i].as_str());
        proof {
            if i == 0 {
                assert(out@ =~= views(names@)[0]);
            }
        }
        i = i + 1;
    }
    out
}

/// Writes the pattern for messages in a guild.
pub fn guild_pattern_string(client_id: u64, names: &Vec<String>) -> (r: String)
    ensures
        r@ == guild_pattern(client_id, views(names@)),
{
    let id = decimal_string(client_id);
    let mut out = String::from_str("^(?:(?:<@");
    out.append(id.as_str());
    out.append(">\\s*)|(?:<@!");
    out.append(id.as_str());
    out.append(">\\s*)|(?P<prefix>\\S{1,5}?))(?P<cmd>");
    out.append(join_names(names).as_str());
    out.append(")(?:$|\\s+(?P<args>.*))$");
    out
}

/// Writes the pattern for direct messages.
pub fn dm_pattern_string(client_id: u64, names: &Vec<String>) -> (r: String)
    ensures
        r@ == dm_pattern(client_id, views(names@)),
{
    let id = decimal_string(client_id);
    let mut out = String::from_str("^(?:(?:<@");
    out.append(id.as_str());
    out.append(">\\s+)|(?:<@!");
    out.append(id.as_str());
    out.append(">\\s+)|(\\$)|())(?P<cmd>");
    out.append(join_names(names).as_str());
    out.append(")(?:$|\\s+(?P<args>.*))$");
    out
}

/// Every name in `of_length` has that length and is one of the names.
proof fn lemma_of_length(names: Seq<Seq<char>>, n: nat, len: nat)
    requires
        n <= names.len(),
    ensures
        forall|i: int|
            0 <= i < of_length(names, n, len).len() ==> (#[trigger] of_length(names, n, len)[i]).len()
                == len && names.contains(of_length(names, n, len)[i]),
        forall|k: int|
            0 <= k < n && names[k].len() == len ==> of_length(names, n, len).contains(
                #[trigger] names[k],
            ),
    decreases n,
{
    if n > 0 {
        lemma_of_length(names, (n - 1) as nat, len);
        let before = of_length(names, (n - 1) as nat, len);
        let now = of_length(names, n, len);
        assert forall|k: int| 0 <= k < n && names[k].len() == len implies now.contains(
            #[trigger] names[k],
        ) by {
            if k < n - 1 {
                let w = choose|w: int| 0 <= w < before.len() && before[w] == names[k];
                assert(now[w] == names[k]);
            } else {
                assert(now[now.len() - 1] == names[k]);
            }
        }
    }
}

/// Longest first: in the order in which the pattern tries the names, no name
/// stands behind a shorter one, so that a short name never takes the place of
/// a longer one that begins with it.
pub proof fn law_longest_first(names: Seq<Seq<char>>, top: nat)
    ensures
        forall|i: int|
            0 <= i < longest_first(names, top).len() ==> (#[trigger] longest_first(names, top)[i]).len()
                <= top && names.contains(longest_first(names, top)[i]),
        forall|i: int, j: int|
            0 <= i < j < longest_first(names, top).len() ==> (#[trigger] longest_first(
                names,
                top,
            )[i]).len() >= (#[trigger] longest_first(names, top)[j]).len(),
    decreases top,
{
    lemma_of_length(names, names.len(), top);
    let here = of_length(names, names.len(), top);
    let all = longest_first(names, top);
    if top > 0 {
        law_longest_first(names, (top - 1) as nat);
        let rest = longest_first(names, (top - 1) as nat);
        assert forall|i: int| 0 <= i < all.len() implies (#[trigger] all[i]).len() <= top
            && names.contains(all[i]) by {
            if i < here.len() {
                assert(all[i] == here[i]);
            } else {
                assert(all[i] == rest[i - here.len()]);
            }
        }
        assert forall|i: int, j: int| 0 <= i < j < all.len() implies (#[trigger] all[i]).len() >= (
        #[trigger] all[j]).len() by {
            if i < here.len() {
                assert(all[i] == here[i]);
            } else {
                assert(all[i] == rest[i - here.len()]);
            }
            if j < here.len() {
                assert(all[j] == here[j]);
            } else {
                assert(all[j] == rest[j - here.len()]);
            }
        }
    } else {
        assert(all == here);
    }
}

/// Nothing is lost: every name of at most `top` characters stands in the
/// order.
pub proof fn law_every_name_listed(names: Seq<Seq<char>>, top: nat, k: int)
    requires
        0 <= k < names.len(),
        names[k].len() <= top,
    ensures
        longest_first(names, top).contains(names[k]),
    decreases top,
{
    lemma_of_length(names, names.len(), top);
    let here = of_length(names, names.len(), top);
    if names[k].len() == top {
        let w = choose|w: int| 0 <= w < here.len() && here[w] == names[k];
        assert(longest_first(names, top)[w] == names[k]);
    } else {
        law_every_name_listed(names, (top - 1) as nat, k);
        let rest = longest_first(names, (top - 1) as nat);
        let w = choose|w: int| 0 <= w < rest.len() && rest[w] == names[k];
        assert(longest_first(names, top)[here.len() + w] == names[k]);
    }
}

/// The alternatives of a pattern are the names it was written for, no more
/// and no fewer: every name stands among them, and each of them is a name.
pub proof fn law_alternatives_are_the_names(names: Seq<Seq<char>>)
    ensures
        forall|k: int| 0 <= k < names.len() ==> by_length(names).contains(#[trigger] names[k]),
        forall|i: int|
            0 <= i < by_length(names).len() ==> names.contains(#[trigger] by_length(names)[i]),
        forall|i: int, j: int|
            0 <= i < j < by_length(names).len() ==> (#[trigger] by_length(names)[i]).len() >= (
            #[trigger] by_length(names)[j]).len(),
{
    let top = longest(names, names.len());
    law_longest_first(names, top);
    assert forall|k: int| 0 <= k < names.len() implies by_length(names).contains(
        #[trigger] names[k],
    ) by {
        lemma_longest_bounds(names, names.len(), k);
        law_every_name_listed(names, top, k);
    }
}

/// No name is longer than the longest.
proof fn lemma_longest_bounds(names: Seq<Seq<char>>, n: nat, k: int)
    requires
        0 <= k < n <= names.len(),
    ensures
        names[k].len() <= longest(names, n),
    decreases n,
{
    if k < n - 1 {
        lemma_longest_bounds(names, (n - 1) as nat, k);
    }
}

} // verus!
