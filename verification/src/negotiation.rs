//! Choosing among the values that a client offers in one header.
//!
//! The server ranks the values it is willing to accept. A header value names
//! several candidates, separated by a comma and a space; the candidate that
//! an option of the greatest priority accepts is selected, the earliest one
//! if several are accepted at that priority.

use vstd::prelude::*;
use vstd::string::StrSliceExecFns;
use crate::text::{candidate_ranges, candidates, chars_of, range_equals};

verus! {

/// One value that the server accepts for a header, with its rank. The value
/// `*` accepts every candidate.
#[derive(Clone, Debug, PartialEq, Eq)]
pub struct HeaderOption {
    pub value: String,
    pub priority: i32,
}

impl View for HeaderOption {
    type V = (Seq<char>, int);

    open spec fn view(&self) -> (Seq<char>, int) {
        (self.value@, self.priority as int)
    }
}

/// What a negotiation ends in.
#[derive(Clone, Debug, PartialEq, Eq)]
pub enum NegotiationResult {
    /// The candidate that was chosen, as the client wrote it.
    Selected(String),
    /// No candidate is accepted by any option.
    NoMatch,
}

impl View for NegotiationResult {
    type V = Option<Seq<char>>;

    open spec fn view(&self) -> Option<Seq<char>> {
        match self {
            NegotiationResult::Selected(value) => Some(value@),
            NegotiationResult::NoMatch => None,
        }
    }
}

/// The options as values and priorities.
pub open spec fn options_view(options: Seq<HeaderOption>) -> Seq<(Seq<char>, int)> {
    options.map_values(|option: HeaderOption| option@)
}

/// The option value that accepts every candidate.
pub open spec fn wildcard() -> Seq<char> {
    seq!['*']
}

/// An option with this value accepts the candidate `token`.
pub open spec fn accepts(option_value: Seq<char>, token: Seq<char>) -> bool {
    option_value == token || option_value == wildcard()
}

/// Candidate `i` is accepted by option `k`.
pub open spec fn matched(
    tokens: Seq<Seq<char>>,
    options: Seq<(Seq<char>, int)>,
    i: int,
    k: int,
) -> bool {
    0 <= i < tokens.len() && 0 <= k < options.len() && accepts(options[k].0, tokens[i])
}

/// Candidate `i` wins through option `k`: no option that accepts a candidate
/// has a greater priority than `k`, and none that accepts an earlier
/// candidate has a priority as great.
pub open spec fn wins(
    tokens: Seq<Seq<char>>,
    options: Seq<(Seq<char>, int)>,
    i: int,
    k: int,
) -> bool {
    &&& matched(tokens, options, i, k)
    &&& forall|j: int, m: int| #[trigger]
        matched(tokens, options, j, m) ==> options[m].1 <= options[k].1
    &&& forall|j: int, m: int| #[trigger]
        matched(tokens, options, j, m) && j < i ==> options[m].1 < options[k].1
}

/// The candidate among `tokens` that wins, if any does.
pub open spec fn selection(tokens: Seq<Seq<char>>, options: Seq<(Seq<char>, int)>) -> Option<
    Seq<char>,
> {
    if exists|i: int, k: int| wins(tokens, options, i, k) {
        let (i, k) = choose|i: int, k: int| wins(tokens, options, i, k);
        Some(tokens[i])
    } else {
        None
    }
}

/// The outcome of negotiating the header value `raw` against `options`.
pub open spec fn negotiated(raw: Seq<char>, options: Seq<(Seq<char>, int)>) -> Option<
    Seq<char>,
> {
    selection(candidates(raw), options)
}

/// At most one candidate wins, whichever options it wins through.
pub proof fn winner_is_unique(
    tokens: Seq<Seq<char>>,
    options: Seq<(Seq<char>, int)>,
    i: int,
    k: int,
    i2: int,
    k2: int,
)
    requires
        wins(tokens, options, i, k),
        wins(tokens, options, i2, k2),
    ensures
        i == i2,
        options[k].1 == options[k2].1,
{
    assert(matched(tokens, options, i, k));
    assert(matched(tokens, options, i2, k2));
}

/// Among the first `n` options, one that accepts `token` with the greatest
/// priority.
proof fn best_option(options: Seq<(Seq<char>, int)>, token: Seq<char>, n: int) -> (k: int)
    requires
        0 <= n <= options.len(),
        exists|m: int| 0 <= m < n && accepts(options[m].0, token),
    ensures
        0 <= k < n,
        accepts(options[k].0, token),
        forall|m: int| 0 <= m < n && accepts(options[m].0, token) ==> options[m].1 <= options[k].1,
    decreases n,
{
    if exists|m: int| 0 <= m < n - 1 && accepts(options[m].0, token) {
        let earlier = best_option(options, token, n - 1);
        if accepts(options[n - 1].0, token) && options[n - 1].1 > options[earlier].1 {
            n - 1
        } else {
            earlier
        }
    } else {
        n - 1
    }
}

/// Among the first `n` candidates, the one that wins and an option it wins
/// through.
proof fn leader(tokens: Seq<Seq<char>>, options: Seq<(Seq<char>, int)>, n: int) -> (w: (int, int))
    requires
        0 <= n <= tokens.len(),
        exists|j: int, m: int| j < n && matched(tokens, options, j, m),
    ensures
        w.0 < n,
        matched(tokens, options, w.0, w.1),
        forall|j: int, m: int| #[trigger]
            matched(tokens, options, j, m) && j < n ==> options[m].1 <= options[w.1].1,
        forall|j: int, m: int| #[trigger]
            matched(tokens, options, j, m) && j < w.0 ==> options[m].1 < options[w.1].1,
    decreases n,
{
    let last = n - 1;
    let last_matched = exists|m: int| matched(tokens, options, last, m);
    if exists|j: int, m: int| j < last && matched(tokens, options, j, m) {
        let earlier = leader(tokens, options, last);
        if last_matched {
            let k = best_option(options, tokens[last], options.len() as int);
            if options[k].1 > options[earlier.1].1 {
                (last, k)
            } else {
                earlier
            }
        } else {
            earlier
        }
    } else {
        let (j, m) = choose|j: int, m: int| j < n && matched(tokens, options, j, m);
        assert(j == last);
        let k = best_option(options, tokens[last], options.len() as int);
        (last, k)
    }
}

/// A negotiation selects the candidate that is accepted by an option of the
/// greatest priority among all options that accept some candidate, the first
/// one in the header value if several are accepted at that priority; it ends
/// without a match only if no option accepts any candidate.
pub proof fn priority_correctness(raw: Seq<char>, options: Seq<(Seq<char>, int)>)
    ensures
        match negotiated(raw, options) {
            Some(value) => exists|i: int, k: int|
                wins(candidates(raw), options, i, k) && value == candidates(raw)[i],
            None => forall|i: int, k: int| !matched(candidates(raw), options, i, k),
        },
{
    let tokens = candidates(raw);
    if exists|i: int, k: int| wins(tokens, options, i, k) {
        let (i, k) = choose|i: int, k: int| wins(tokens, options, i, k);
        assert(wins(tokens, options, i, k) && negotiated(raw, options) == Some(tokens[i]));
    } else {
        if exists|j: int, m: int| matched(tokens, options, j, m) {
            let (j, m) = choose|j: int, m: int| matched(tokens, options, j, m);
            assert(j < tokens.len() && matched(tokens, options, j, m));
            let w = leader(tokens, options, tokens.len() as int);
            assert(wins(tokens, options, w.0, w.1));
        }
    }
}

/// A selected value is one of the candidates of the header value, and an
/// option accepts it: either the value itself is listed among the options,
/// or the wildcard is.
pub proof fn selected_is_offered_and_accepted(raw: Seq<char>, options: Seq<(Seq<char>, int)>)
    requires
        negotiated(raw, options) is Some,
    ensures
        candidates(raw).contains(negotiated(raw, options)->Some_0),
        exists|k: int|
            #![trigger options[k]]
            0 <= k < options.len() && (options[k].0 == negotiated(raw, options)->Some_0
                || options[k].0 == wildcard()),
{
    priority_correctness(raw, options);
    let value = negotiated(raw, options)->Some_0;
    let (i, k) = choose|i: int, k: int|
        wins(candidates(raw), options, i, k) && value == candidates(raw)[i];
    assert(matched(candidates(raw), options, i, k));
    assert(options[k].0 == value || options[k].0 == wildcard());
}

/// The characters of each option's value, in the order of the options.
fn patterns_of(options: &Vec<HeaderOption>) -> (patterns: Vec<Vec<char>>)
    ensures
        patterns@.len() == options@.len(),
        forall|k: int| 0 <= k < options@.len() ==> (#[trigger] patterns@[k])@ == options@[k].value@,
{
    let mut patterns: Vec<Vec<char>> = Vec::new();
    let mut k: usize = 0;
    while k < options.len()
        invariant
            k <= options@.len(),
            patterns@.len() == k,
            forall|m: int| 0 <= m < k ==> (#[trigger] patterns@[m])@ == options@[m].value@,
        decreases options@.len() - k,
    {
        patterns.push(chars_of(options[k].value.as_str()));
        k = k + 1;
    }
    patterns
}

/// An option of the greatest priority among those that accept the candidate
/// `chars[start..end]`, if any accepts it.
fn best_accepting(
    chars: &Vec<char>,
    start: usize,
    end: usize,
    patterns: &Vec<Vec<char>>,
    options: &Vec<HeaderOption>,
) -> (found: Option<usize>)
    requires
        start <= end <= chars@.len(),
        patterns@.len() == options@.len(),
        forall|k: int| 0 <= k < options@.len() ==> (#[trigger] patterns@[k])@ == options@[k].value@,
    ensures
        match found {
            Some(k) => {
                &&& k < options@.len()
                &&& accepts(options@[k as int].value@, chars@.subrange(start as int, end as int))
                &&& forall|m: int|
                    0 <= m < options@.len() && accepts(
                        (#[trigger] options@[m]).value@,
                        chars@.subrange(start as int, end as int),
                    ) ==> options@[m].priority <= options@[k as int].priority
            },
            None => forall|m: int|
                0 <= m < options@.len() ==> !accepts(
                    (#[trigger] options@[m]).value@,
                    chars@.subrange(start as int, end as int),
                ),
        },
{
    let ghost token = chars@.subrange(start as int, end as int);
    let mut found: Option<usize> = None;
    let mut k: usize = 0;
    while k < options.len()
        invariant
            start <= end <= chars@.len(),
            token == chars@.subrange(start as int, end as int),
            patterns@.len() == options@.len(),
            forall|m: int|
                0 <= m < options@.len() ==> (#[trigger] patterns@[m])@ == options@[m].value@,
            k <= options@.len(),
            match found {
                Some(b) => {
                    &&& b < k
                    &&& accepts(options@[b as int].value@, token)
                    &&& forall|m: int|
                        0 <= m < k && accepts((#[trigger] options@[m]).value@, token)
                            ==> options@[m].priority <= options@[b as int].priority
                },
                None => forall|m: int|
                    0 <= m < k ==> !accepts((#[trigger] options@[m]).value@, token),
            },
        decreases options@.len() - k,
    {
        let pattern = &patterns[k];
        let is_wildcard = pattern.len() == 1 && pattern[0] == '*';
        assert(is_wildcard == (pattern@ == wildcard())) by {
            if is_wildcard {
                assert(pattern@ =~= wildcard());
            }
        }
        if is_wildcard || range_equals(chars, start, end, pattern) {
            let better = match found {
                Some(b) => options[k].priority > options[b].priority,
                None => true,
            };
            if better {
                found = Some(k);
            }
        }
        k = k + 1;
    }
    found
}

/// Negotiates the header value `raw_value` against the ranked `options`.
///
/// The value is split at each comma followed by a space, and each part is
/// trimmed. The candidate accepted by an option of the greatest priority is
/// selected, the first such candidate if there are several; without any
/// accepted candidate the result is `NoMatch`.
pub fn negotiate(raw_value: &str, options: &Vec<HeaderOption>) -> (result: NegotiationResult)
    ensures
        result@ == negotiated(raw_value@, options_view(options@)),
        match result@ {
            Some(value) => exists|i: int, k: int|
                wins(candidates(raw_value@), options_view(options@), i, k) && value == candidates(
                    raw_value@,
                )[i],
            None => forall|i: int, k: int|
                !matched(candidates(raw_value@), options_view(options@), i, k),
        },
{
    let chars = chars_of(raw_value);
    let ranges = candidate_ranges(&chars);
    let patterns = patterns_of(options);
    let ghost tokens = candidates(raw_value@);
    let ghost opts = options_view(options@);
    let mut best: Option<(usize, i32)> = None;
    let ghost mut best_option: int = 0;
    let mut t: usize = 0;
    while t < ranges.len()
        invariant
            chars@ == raw_value@,
            tokens == candidates(raw_value@),
            opts == options_view(options@),
            ranges@.len() == tokens.len(),
            forall|j: int|
                0 <= j < ranges@.len() ==> {
                    &&& (#[trigger] ranges@[j]).0 <= ranges@[j].1 <= chars@.len()
                    &&& chars@.subrange(ranges@[j].0 as int, ranges@[j].1 as int) == tokens[j]
                },
            patterns@.len() == options@.len(),
            forall|m: int|
                0 <= m < options@.len() ==> (#[trigger] patterns@[m])@ == options@[m].value@,
            t <= ranges@.len(),
            match best {
                Some((i, priority)) => {
                    &&& i < t
                    &&& matched(tokens, opts, i as int, best_option)
                    &&& opts[best_option].1 == priority
                    &&& forall|j: int, m: int| #[trigger]
                        matched(tokens, opts, j, m) && j < t ==> opts[m].1 <= priority
                    &&& forall|j: int, m: int| #[trigger]
                        matched(tokens, opts, j, m) && j < i ==> opts[m].1 < priority
                },
                None => forall|j: int, m: int| #[trigger]
                    matched(tokens, opts, j, m) ==> j >= t,
            },
        decreases ranges@.len() - t,
    {
        let (start, end) = ranges[t];
        assert(chars@.subrange(start as int, end as int) == tokens[t as int]);
        let found = best_accepting(&chars, start, end, &patterns, options);
        assert forall|m: int| 0 <= m < opts.len() implies opts[m] == options@[m]@ by {}
        match found {
            Some(k) => {
                let priority = options[k].priority;
                assert(matched(tokens, opts, t as int, k as int));
                assert forall|m: int| #[trigger]
                    matched(tokens, opts, t as int, m) implies opts[m].1 <= priority by {
                    assert(accepts(options@[m].value@, tokens[t as int]));
                }
                let better = match best {
                    Some((_, leading)) => priority > leading,
                    None => true,
                };
                if better {
                    best = Some((t, priority));
                    proof {
                        best_option = k as int;
                    }
                }
            },
            None => {
                assert forall|m: int| !matched(tokens, opts, t as int, m) by {
                    if 0 <= m < opts.len() {
                        assert(!accepts(options@[m].value@, tokens[t as int]));
                    }
                }
            },
        }
        t = t + 1;
    }
    match best {
        Some((i, _)) => {
            let (start, end) = ranges[i];
            let value = raw_value.substring_char(start, end).to_owned();
            proof {
                assert(wins(tokens, opts, i as int, best_option));
                let (i2, k2) = choose|i2: int, k2: int| wins(tokens, opts, i2, k2);
                winner_is_unique(tokens, opts, i as int, best_option, i2, k2);
                assert(value@ == tokens[i as int]);
            }
            NegotiationResult::Selected(value)
        },
        None => {
            assert forall|j: int, m: int| !matched(tokens, opts, j, m) by {
                if matched(tokens, opts, j, m) {
                    assert(j >= t);
                }
            }
            NegotiationResult::NoMatch
        },
    }
}

/// The pairs of a priority list as values and priorities.
pub open spec fn pairs_view(pairs: Seq<(&str, i32)>) -> Seq<(Seq<char>, int)> {
    pairs.map_values(|pair: (&str, i32)| (pair.0@, pair.1 as int))
}

/// Validates the value of a WebSocket header against a priority list of
/// pairs of an accepted value and its priority, where `*` accepts any value:
/// the candidate that `negotiate` selects, or `None` without a match.
pub fn validate_websocket_header(key_value: &str, value_priority_list: Vec<(&str, i32)>) -> (most_valuable:
    Option<String>)
    ensures
        match most_valuable {
            Some(value) => Some(value@),
            None => None,
        } == negotiated(key_value@, pairs_view(value_priority_list@)),
{
    let mut options: Vec<HeaderOption> = Vec::new();
    let mut k: usize = 0;
    while k < value_priority_list.len()
        invariant
            k <= value_priority_list@.len(),
            options@.len() == k,
            forall|m: int|
                0 <= m < k ==> (#[trigger] options@[m])@ == pairs_view(value_priority_list@)[m],
        decreases value_priority_list@.len() - k,
    {
        let (value, priority) = value_priority_list[k];
        options.push(HeaderOption { value: value.to_owned(), priority });
        k = k + 1;
    }
    assert(options_view(options@) =~= pairs_view(value_priority_list@));
    match negotiate(key_value, &options) {
        NegotiationResult::Selected(value) => Some(value),
        NegotiationResult::NoMatch => None,
    }
}

} // verus!
