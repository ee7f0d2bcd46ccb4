//! The flags of the `look` command, read from its arguments.

use crate::text::{parse_u64, parse_u64_spec, view_of};
use vstd::prelude::*;
use vstd::string::StringExecFns;
use vstd::string::StrSliceExecFns;

verus! {

/// How the time of a reminder is shown.
#[derive(Clone, Copy, PartialEq, Eq, Structural, Debug)]
pub enum TimeDisplayType {
    Absolute,
    Relative,
}

/// None, one, or all.
#[derive(Clone, Copy, PartialEq, Eq, Structural, Debug)]
pub enum Selection<T> {
    Nothing,
    Single(T),
    All,
}

/// What `look` lists, and how.
#[derive(Clone, Copy, PartialEq, Eq, Structural, Debug)]
pub struct LookFlags {
    pub limit: u16,
    pub show_disabled: bool,
    pub channel_id: Selection<u64>,
    pub time_display: TimeDisplayType,
}

/// The pattern of a channel mention that stands alone.
pub open spec fn channel_pattern() -> Seq<char> {
    "^\\s*<#(\\d+)>\\s*$"@
}

/// What `regex::Regex::captures` finds as the first group of `pattern` in
/// `text`, for the regex that `regex::Regex::new` makes of the pattern: nothing
/// where the pattern does not compile, the text does not match or the group
/// took no part.
pub uninterp spec fn regex_first_group(pattern: Seq<char>, text: Seq<char>) -> Option<Seq<char>>;

/// Calls `regex::Regex::new`, `regex::Regex::captures` and
/// `regex::Captures::get` with 1, and copies the text of the group. The claim
/// is that the result depends on the pattern and the text alone.
#[verifier::external_body]
fn first_group(pattern: &str, text: &str) -> (r: Option<String>)
    ensures
        view_of(r) == regex_first_group(pattern@, text@),
{
    regex::Regex::new(pattern).ok().and_then(
        |re| re.captures(text).and_then(|c| c.get(1)).map(|m| m.as_str().to_string()),
    )
}

/// The flags before any argument is read: no limit to speak of, disabled
/// reminders shown, no channel chosen, times shown as spans.
pub open spec fn default_flags() -> LookFlags {
    LookFlags {
        limit: u16::MAX,
        show_disabled: true,
        channel_id: Selection::Nothing,
        time_display: TimeDisplayType::Relative,
    }
}

/// The pieces of `s` between blanks. There is always one piece; two blanks in
/// a row have an empty piece between them.
pub open spec fn pieces(s: Seq<char>) -> Seq<Seq<char>>
    decreases s.len(),
{
    if s.len() == 0 {
        seq![Seq::empty()]
    } else if s.last() == ' ' {
        pieces(s.drop_last()).push(Seq::empty())
    } else {
        let before = pieces(s.drop_last());
        before.drop_last().push(before.last().push(s.last()))
    }
}

/// The limit that a piece writes: a number of at most sixteen bits.
pub open spec fn limit_of(piece: Seq<char>) -> Option<u16> {
    match parse_u64_spec(piece) {
        Some(v) => if v <= u16::MAX {
            Some(v as u16)
        } else {
            None
        },
        None => None,
    }
}

/// The channel that the digits of a mention name, if there is a mention.
pub open spec fn channel_of(digits: Option<Seq<char>>) -> Selection<u64> {
    match digits {
        Some(d) => match parse_u64_spec(d) {
            Some(id) => Selection::Single(id),
            None => Selection::Nothing,
        },
        None => Selection::Nothing,
    }
}

/// The flags after one piece of the arguments: `enabled` hides disabled
/// reminders, `time` shows times as dates, `all` chooses every channel, a
/// number sets the limit; anything else chooses the channel that the
/// arguments as a whole mention, or none.
pub open spec fn apply(flags: LookFlags, piece: Seq<char>, digits: Option<Seq<char>>) -> LookFlags {
    if piece == "enabled"@ {
        LookFlags { show_disabled: false, ..flags }
    } else if piece == "time"@ {
        LookFlags { time_display: TimeDisplayType::Absolute, ..flags }
    } else if piece == "all"@ {
        LookFlags { channel_id: Selection::All, ..flags }
    } else {
        match limit_of(piece) {
            Some(v) => LookFlags { limit: v, ..flags },
            None => LookFlags { channel_id: channel_of(digits), ..flags },
        }
    }
}

/// The flags after the first `n` of `parts`, one after another.
pub open spec fn apply_all(parts: Seq<Seq<char>>, n: nat, digits: Option<Seq<char>>) -> LookFlags
    decreases n,
{
    if n == 0 || n > parts.len() {
        default_flags()
    } else {
        apply(apply_all(parts, (n - 1) as nat, digits), parts[n - 1], digits)
    }
}

/// The flags that `args` ask for, given the digits of the channel mention in
/// them.
pub open spec fn flags_for(args: Seq<char>, digits: Option<Seq<char>>) -> LookFlags {
    apply_all(pieces(args), pieces(args).len(), digits)
}

/// Whether the digits of a mention, if there is one, write a channel number
/// that fits in 64 bits.
pub open spec fn digits_fit(digits: Option<Seq<char>>) -> bool {
    match digits {
        Some(d) => parse_u64_spec(d) is Some,
        None => true,
    }
}

impl Default for LookFlags {
    fn default() -> (r: Self)
        ensures
            r == default_flags(),
    {
        LookFlags {
            limit: u16::MAX,
            show_disabled: true,
            channel_id: Selection::Nothing,
            time_display: TimeDisplayType::Relative,
        }
    }
}

fn is_word(piece: &String, word: &str) -> (r: bool)
    ensures
        r == (piece@ == word@),
{
    let w = String::from_str(word);
    *piece == w
}

fn apply_piece(flags: LookFlags, piece: &str, channel: Selection<u64>) -> (r: LookFlags)
    ensures
        forall|digits: Option<Seq<char>>|
            channel_of(digits) == channel ==> r == #[trigger] apply(flags, piece@, digits),
{
    let owned = String::from_str(piece);
    let mut out = flags;
    if is_word(&owned, "enabled") {
        out.show_disabled = false;
    } else if is_word(&owned, "time") {
        out.time_display = TimeDisplayType::Absolute;
    } else if is_word(&owned, "all") {
        out.channel_id = Selection::All;
    } else {
        match parse_u64(piece) {
            Some(v) => {
                if v <= 65535 {
                    out.limit = v as u16;
                } else {
                    out.channel_id = channel;
                }
            },
            None => {
                out.channel_id = channel;
            },
        }
    }
    out
}

impl LookFlags {
    /// Reads the flags from the arguments and from the digits of the channel
    /// mention found in them.
    pub fn from_parts(args: &str, digits: &Option<String>) -> (r: Self)
        ensures
            r == flags_for(args@, view_of(*digits)),
    {
        let channel = match digits {
            Some(d) => match parse_u64(d.as_str()) {
                Some(id) => Selection::Single(id),
                None => Selection::Nothing,
            },
            None => Selection::Nothing,
        };
        let ghost dv = view_of(*digits);
        assert(channel == channel_of(dv));
        let n: usize = args.unicode_len();
        let mut flags: LookFlags = LookFlags::default();
        let mut start: usize = 0;
        let mut i: usize = 0;
        let ghost mut done: Seq<Seq<char>> = Seq::empty();
        assert(args@.subrange(0, 0) =~= Seq::<char>::empty());
        assert(pieces(args@.subrange(0, 0)) =~= done.push(args@.subrange(0, 0)));
        while i < n
            invariant
                start <= i <= n,
                n == args@.len(),
                channel == channel_of(dv),
                pieces(args@.subrange(0, i as int)) == done.push(
                    args@.subrange(start as int, i as int),
                ),
                flags == apply_all(done, done.len(), dv),
            decreases n - i,
        {
            let c: char = args.get_char(i);
            let ghost upto = args@.subrange(0, i as int);
            let ghost next = args@.subrange(0, i + 1);
            proof {
                assert(next.drop_last() =~= upto);
                assert(next.last() == c);
                assert(done.push(args@.subrange(start as int, i as int)).drop_last() =~= done);
            }
            if c == ' ' {
                let piece = args.substring_char(start, i);
                flags = apply_piece(flags, piece, channel);
                proof {
                    let longer = done.push(piece@);
                    assert(longer.drop_last() =~= done);
                    assert(apply_all(longer, longer.len(), dv) == apply(
                        apply_all(longer, (longer.len() - 1) as nat, dv),
                        piece@,
                        dv,
                    ));
                    lemma_apply_all_prefix(done, longer, done.len(), dv);
                    done = longer;
                    assert(args@.subrange(i + 1, i + 1) =~= Seq::<char>::empty());
                }
                start = i + 1;
            } else {
                proof {
                    assert(args@.subrange(start as int, i as int).push(c) =~= args@.subrange(
                        start as int,
                        i + 1,
                    ));
                }
            }
            i = i + 1;
        }
        let piece = args.substring_char(start, n);
        proof {
            assert(args@.subrange(0, n as int) =~= args@);
            let all = done.push(piece@);
            assert(all.drop_last() =~= done);
            lemma_apply_all_prefix(done, all, done.len(), dv);
        }
        apply_piece(flags, piece, channel)
    }

    /// Reads the flags from the arguments. A channel mention in them must
    /// write a number that fits in 64 bits.
    pub fn from_string(args: &str) -> (r: Self)
        requires
            digits_fit(regex_first_group(channel_pattern(), args@)),
        ensures
            r == flags_for(args@, regex_first_group(channel_pattern(), args@)),
    {
        let digits = first_group("^\\s*<#(\\d+)>\\s*$", args);
        LookFlags::from_parts(args, &digits)
    }

    /// Reads the flags from the arguments; none where they mention a channel
    /// by a number that does not fit in 64 bits.
    pub fn try_from_string(args: &str) -> (r: Option<Self>)
        ensures
            r == (if digits_fit(regex_first_group(channel_pattern(), args@)) {
                Some(flags_for(args@, regex_first_group(channel_pattern(), args@)))
            } else {
                None
            }),
    {
        let digits = first_group("^\\s*<#(\\d+)>\\s*$", args);
        let fits = match &digits {
            Some(d) => parse_u64(d.as_str()).is_some(),
            None => true,
        };
        if fits {
            Some(LookFlags::from_string(args))
        } else {
            None
        }
    }
}

proof fn lemma_apply_all_prefix(
    a: Seq<Seq<char>>,
    b: Seq<Seq<char>>,
    n: nat,
    digits: Option<Seq<char>>,
)
    requires
        n <= a.len(),
        n <= b.len(),
        forall|i: int| 0 <= i < n ==> a[i] == b[i],
    ensures
        apply_all(a, n, digits) == apply_all(b, n, digits),
    decreases n,
{
    if n > 0 {
        lemma_apply_all_prefix(a, b, (n - 1) as nat, digits);
    }
}

} // verus!
