//! Prompt formatting and response sanitation for one model family's template.
use vstd::prelude::*;
use crate::dto::{Message, Role};
use crate::text::{
    append_seq, chars_of, contains, contains_seq, ends_with, ends_with_seq, find, first_index,
    join_lines, lines, lines_of, occurs_at, replace_all, replace_seq, slice_of, starts_with, starts_with_seq,
    string_of, trim, trim_seq, trim_start,
    trim_start_seq, views,
};

verus! {

/// Control markers of model templates that must never reach a client.
pub const MARKER_COUNT: usize = 6;

/// Role prefixes that mark dialogue pollution at the start of a line.
pub const ROLE_PATTERN_COUNT: usize = 9;

/// Replaces a response that drifted into a two-party transcript.
pub const ROLE_POLLUTION_FALLBACK: &'static str =
    "I understand you'd like me to respond, but I should avoid role-playing conversations. How can I help you directly?";

/// Stands in for a response that cleaning left empty.
pub const EMPTY_RESPONSE_FALLBACK: &'static str = "I'm here to help. What would you like to know?";

pub open spec fn marker(k: int) -> Seq<char> {
    if k == 0 {
        "<|eot_id|>"@
    } else if k == 1 {
        "<|end_of_text|>"@
    } else if k == 2 {
        "<|start_header_id|>"@
    } else if k == 3 {
        "<|end_header_id|>"@
    } else if k == 4 {
        "<|im_end|>"@
    } else {
        "<|im_start|>"@
    }
}

pub fn marker_chars(k: usize) -> (r: Vec<char>)
    requires
        k < MARKER_COUNT,
    ensures
        r@ == marker(k as int),
{
    if k == 0 {
        chars_of("<|eot_id|>")
    } else if k == 1 {
        chars_of("<|end_of_text|>")
    } else if k == 2 {
        chars_of("<|start_header_id|>")
    } else if k == 3 {
        chars_of("<|end_header_id|>")
    } else if k == 4 {
        chars_of("<|im_end|>")
    } else {
        chars_of("<|im_start|>")
    }
}

pub open spec fn role_pattern(k: int) -> Seq<char> {
    if k == 0 {
        "AI:"@
    } else if k == 1 {
        "You:"@
    } else if k == 2 {
        "User:"@
    } else if k == 3 {
        "Assistant:"@
    } else if k == 4 {
        "System:"@
    } else if k == 5 {
        "Human:"@
    } else if k == 6 {
        "Bot:"@
    } else if k == 7 {
        "### Instruction:"@
    } else {
        "### Response:"@
    }
}

pub fn role_pattern_chars(k: usize) -> (r: Vec<char>)
    requires
        k < ROLE_PATTERN_COUNT,
    ensures
        r@ == role_pattern(k as int),
{
    if k == 0 {
        chars_of("AI:")
    } else if k == 1 {
        chars_of("You:")
    } else if k == 2 {
        chars_of("User:")
    } else if k == 3 {
        chars_of("Assistant:")
    } else if k == 4 {
        chars_of("System:")
    } else if k == 5 {
        chars_of("Human:")
    } else if k == 6 {
        chars_of("Bot:")
    } else if k == 7 {
        chars_of("### Instruction:")
    } else {
        chars_of("### Response:")
    }
}

/// Prefixes and suffixes that frame each role's turn in a prompt.
#[derive(Debug, Clone)]
pub struct TemplateConfig {
    pub id: String,
    pub name: String,
    pub system_prefix: String,
    pub system_suffix: String,
    pub user_prefix: String,
    pub user_suffix: String,
    pub assistant_prefix: String,
    pub assistant_suffix: String,
    pub default_system_prompt: String,
}

/// A response after cleaning, with the stop sequence it was cut at.
#[derive(Debug, Clone)]
pub struct CleanedResponse {
    pub content: String,
    pub stopped_at: Option<String>,
}

/// What one streamed piece of output yields.
#[derive(Debug, Clone)]
pub enum StreamChunkResult {
    /// New content that can be shown now.
    Partial { content: String },
    /// A stop sequence arrived: the whole cleaned response.
    Complete { content: String, stopped_at: Option<String> },
    /// Nothing new to show.
    Buffering,
}

pub open spec fn str_views(v: Seq<String>) -> Seq<Seq<char>> {
    v.map_values(|x: String| x@)
}

/// One turn: prefix, content and suffix.
pub open spec fn turn(prefix: Seq<char>, content: Seq<char>, suffix: Seq<char>) -> Seq<char> {
    prefix + content + suffix
}

/// The prompt text for messages `i..`, where `seen` tells whether a system
/// prompt has already been written.
pub open spec fn prompt_from(ms: Seq<Message>, t: TemplateConfig, i: int, seen: bool) -> Seq<
    char,
>
    decreases ms.len() - i,
{
    if i < 0 || i >= ms.len() {
        t.assistant_prefix@
    } else {
        let m = ms[i];
        match m.role {
            Role::System => turn(t.system_prefix@, m.content@, t.system_suffix@) + prompt_from(
                ms,
                t,
                i + 1,
                true,
            ),
            Role::User => (if seen {
                Seq::empty()
            } else {
                turn(t.system_prefix@, t.default_system_prompt@, t.system_suffix@)
            }) + turn(t.user_prefix@, m.content@, t.user_suffix@) + prompt_from(
                ms,
                t,
                i + 1,
                true,
            ),
            Role::Assistant => turn(t.assistant_prefix@, m.content@, t.assistant_suffix@)
                + prompt_from(ms, t, i + 1, seen),
        }
    }
}

/// The prompt for a conversation: each message framed by its role's prefix and
/// suffix, a default system turn before the first user turn when no system
/// message came earlier, and the assistant prefix at the end.
pub open spec fn prompt_of(ms: Seq<Message>, t: TemplateConfig) -> Seq<char> {
    prompt_from(ms, t, 0, false)
}

/// Among `cands`, the earliest position at which one stands in `s`, with
/// the index of the first candidate that stands there.
pub open spec fn earliest_stop(s: Seq<char>, cands: Seq<Seq<char>>) -> Option<(int, int)>
    decreases cands.len(),
{
    if cands.len() == 0 {
        None
    } else {
        let prev = earliest_stop(s, cands.drop_last());
        match first_index(s, cands.last()) {
            None => prev,
            Some(p) => match prev {
                Some((q, j)) => if q <= p {
                    prev
                } else {
                    Some((p, cands.len() - 1))
                },
                None => Some((p, cands.len() - 1)),
            },
        }
    }
}

/// The sequences that end a response: the stop sequences, then the end-of-sequence token.
pub open spec fn stop_candidates(stops: Seq<Seq<char>>, eos: Seq<char>) -> Seq<Seq<char>> {
    stops.push(eos)
}

/// The text before the earliest occurrence of any stop sequence or of
/// `eos`, with the sequence found there (the first listed, on a tie).
pub open spec fn stop_scan(s: Seq<char>, stops: Seq<Seq<char>>, eos: Seq<char>) -> (
    Seq<char>,
    Option<Seq<char>>,
) {
    let c = stop_candidates(stops, eos);
    match earliest_stop(s, c) {
        Some((p, i)) => (s.subrange(0, p), Some(c[i])),
        None => (s, None),
    }
}

/// The stop sequence that occurs earliest in `s`, if any.
pub open spec fn first_stop(s: Seq<char>, stops: Seq<Seq<char>>, eos: Seq<char>) -> Option<
    Seq<char>,
> {
    stop_scan(s, stops, eos).1
}

/// The index of the first of `cands`, in list order, that stands in `s`.
pub open spec fn listed_stop_index(s: Seq<char>, cands: Seq<Seq<char>>) -> Option<int>
    decreases cands.len(),
{
    if cands.len() == 0 {
        None
    } else {
        match listed_stop_index(s, cands.drop_last()) {
            Some(k) => Some(k),
            None => if contains(s, cands.last()) {
                Some(cands.len() - 1)
            } else {
                None
            },
        }
    }
}

/// The first stop sequence, in the order `stops` then `eos`, that stands in `s`.
pub open spec fn listed_stop(s: Seq<char>, stops: Seq<Seq<char>>, eos: Seq<char>) -> Option<
    Seq<char>,
> {
    let c = stop_candidates(stops, eos);
    match listed_stop_index(s, c) {
        Some(k) => Some(c[k]),
        None => None,
    }
}

/// A candidate found in a prefix of the list is the one found in the whole list.
pub proof fn lemma_listed_prefix(s: Seq<char>, cands: Seq<Seq<char>>, k: int)
    requires
        0 <= k <= cands.len(),
        listed_stop_index(s, cands.subrange(0, k)) is Some,
    ensures
        listed_stop_index(s, cands) == listed_stop_index(s, cands.subrange(0, k)),
    decreases cands.len() - k,
{
    if k < cands.len() {
        assert(cands.subrange(0, k + 1).drop_last() =~= cands.subrange(0, k));
        lemma_listed_prefix(s, cands, k + 1);
    } else {
        assert(cands.subrange(0, k) =~= cands);
    }
}

pub proof fn lemma_earliest_stop_bounds(s: Seq<char>, cands: Seq<Seq<char>>)
    ensures
        earliest_stop(s, cands) matches Some((p, i)) ==> 0 <= i < cands.len() && occurs_at(
            s,
            cands[i],
            p,
        ) && 0 <= p <= s.len(),
    decreases cands.len(),
{
    if cands.len() > 0 {
        lemma_earliest_stop_bounds(s, cands.drop_last());
        crate::text::lemma_find_from_bounds(s, cands.last(), 0);
    }
}

/// `s` without an echoed assistant prefix at its start and suffix at its end.
pub open spec fn remove_echoes(s: Seq<char>, prefix: Seq<char>, suffix: Seq<char>) -> Seq<char> {
    let a = if prefix.len() > 0 && starts_with(s, prefix) {
        s.subrange(prefix.len() as int, s.len() as int)
    } else {
        s
    };
    if suffix.len() > 0 && ends_with(a, suffix) {
        a.subrange(0, a.len() - suffix.len())
    } else {
        a
    }
}

/// `s` with the first `k` control markers removed, in order.
pub open spec fn strip_markers_upto(s: Seq<char>, k: int) -> Seq<char>
    decreases k,
{
    if k <= 0 {
        s
    } else {
        replace_all(strip_markers_upto(s, k - 1), marker(k - 1), Seq::empty())
    }
}

/// `s` with every control marker removed, pass after pass, until a pass
/// removes nothing, so that no removal leaves a marker re-formed behind it.
pub open spec fn strip_markers(s: Seq<char>) -> Seq<char>
    decreases s.len(),
{
    let t = strip_markers_upto(s, MARKER_COUNT as int);
    if t.len() < s.len() {
        strip_markers(t)
    } else {
        t
    }
}


pub proof fn lemma_marker_nonempty(k: int)
    ensures
        marker(k).len() > 0,
{
    reveal_strlit("<|eot_id|>");
    reveal_strlit("<|end_of_text|>");
    reveal_strlit("<|start_header_id|>");
    reveal_strlit("<|end_header_id|>");
    reveal_strlit("<|im_end|>");
    reveal_strlit("<|im_start|>");
}

/// No occurrence of `p` anywhere in `s`.
pub open spec fn free_of(s: Seq<char>, p: Seq<char>) -> bool {
    forall|i: int| !occurs_at(s, p, i)
}

/// Removing a non-empty `p` never lengthens the text; when it does not
/// shorten it, `p` did not occur and the text is unchanged.
pub proof fn lemma_remove_shortens(s: Seq<char>, p: Seq<char>)
    requires
        p.len() > 0,
    ensures
        replace_all(s, p, Seq::empty()).len() <= s.len(),
        replace_all(s, p, Seq::empty()).len() == s.len() ==> free_of(s, p) && replace_all(
            s,
            p,
            Seq::empty(),
        ) == s,
    decreases s.len(),
{
    if s.len() == 0 {
        assert forall|i: int| !occurs_at(s, p, i) by {}
    } else if starts_with(s, p) {
        let rest = s.subrange(p.len() as int, s.len() as int);
        lemma_remove_shortens(rest, p);
        assert(replace_all(s, p, Seq::empty()) =~= replace_all(rest, p, Seq::empty()));
    } else {
        let rest = s.subrange(1, s.len() as int);
        lemma_remove_shortens(rest, p);
        if replace_all(s, p, Seq::empty()).len() == s.len() {
            assert forall|i: int| !occurs_at(s, p, i) by {
                if occurs_at(s, p, i) {
                    if i == 0 {
                        assert(s.subrange(0, p.len() as int) == s.subrange(i, i + p.len()));
                    } else {
                        assert(rest.subrange(i - 1, i - 1 + p.len()) =~= s.subrange(i, i + p.len()));
                        assert(occurs_at(rest, p, i - 1));
                    }
                }
            }
            assert(seq![s[0]] + rest =~= s);
        }
    }
}

/// A pass over the first `k` markers never lengthens the text; when it does
/// not shorten it, none of those markers occurred and the text is unchanged.
pub proof fn lemma_pass_shortens(s: Seq<char>, k: int)
    requires
        0 <= k <= MARKER_COUNT,
    ensures
        strip_markers_upto(s, k).len() <= s.len(),
        strip_markers_upto(s, k).len() == s.len() ==> strip_markers_upto(s, k) == s && forall|j: int|
            0 <= j < k ==> free_of(s, #[trigger] marker(j)),
    decreases k,
{
    if k > 0 {
        lemma_pass_shortens(s, k - 1);
        let t = strip_markers_upto(s, k - 1);
        lemma_marker_nonempty(k - 1);
        lemma_remove_shortens(t, marker(k - 1));
    }
}

/// After markers are stripped, none of the control markers occurs in the text.
pub proof fn lemma_markers_gone(s: Seq<char>)
    ensures
        forall|j: int| 0 <= j < MARKER_COUNT ==> free_of(strip_markers(s), #[trigger] marker(j)),
    decreases s.len(),
{
    let t = strip_markers_upto(s, MARKER_COUNT as int);
    lemma_pass_shortens(s, MARKER_COUNT as int);
    if t.len() < s.len() {
        lemma_markers_gone(t);
    }
}

/// The first role pattern, from index `k` on, that `s` starts with.
pub open spec fn leading_role(s: Seq<char>, k: int) -> Option<int>
    decreases ROLE_PATTERN_COUNT - k,
{
    if k < 0 || k >= ROLE_PATTERN_COUNT {
        None
    } else if starts_with(s, role_pattern(k)) {
        Some(k)
    } else {
        leading_role(s, k + 1)
    }
}

/// A line after the first `k` role patterns were cleared from inside it, where
/// one follows a newline or the end of a sentence.
pub open spec fn mid_clean(line: Seq<char>, k: int) -> Seq<char>
    decreases k,
{
    if k <= 0 {
        line
    } else {
        let c = mid_clean(line, k - 1);
        let p = role_pattern(k - 1);
        if contains(c, p) && !starts_with(c, p) {
            replace_all(replace_all(c, "\n"@ + p, "\n"@), ". "@ + p, ". "@)
        } else {
            c
        }
    }
}

/// `t` with its leading role marker taken off and the rest trimmed, again
/// and again until no role marker leads it.
pub open spec fn strip_roles(t: Seq<char>) -> Seq<char>
    decreases t.len(),
{
    match leading_role(t, 0) {
        Some(k) => {
            let rest = trim(t.subrange(role_pattern(k).len() as int, t.len() as int));
            if rest.len() < t.len() {
                strip_roles(rest)
            } else {
                rest
            }
        },
        None => t,
    }
}

/// A line with its role markers taken off: `None` when nothing is left after them.
pub open spec fn clean_line(line: Seq<char>) -> Option<Seq<char>> {
    let t = trim_start(line);
    if leading_role(t, 0) is Some {
        let rem = strip_roles(t);
        if rem.len() > 0 {
            Some(rem)
        } else {
            None
        }
    } else {
        Some(mid_clean(line, ROLE_PATTERN_COUNT as int))
    }
}

/// The cleaned, non-empty lines among `ls`, in order.
pub open spec fn kept_lines(ls: Seq<Seq<char>>) -> Seq<Seq<char>>
    decreases ls.len(),
{
    if ls.len() == 0 {
        Seq::empty()
    } else {
        let prev = kept_lines(ls.drop_last());
        match clean_line(ls.last()) {
            Some(c) => if c.len() > 0 {
                prev.push(c)
            } else {
                prev
            },
            None => prev,
        }
    }
}

/// The text shows a transcript of two parties.
pub open spec fn has_dialogue(s: Seq<char>) -> bool {
    contains(s, "AI:"@) && contains(s, "You:"@)
}

/// A dialogue leak becomes the refusal line; otherwise each line loses its
/// role marker, lines left empty are dropped, and an empty result becomes the
/// fallback line.
pub open spec fn remove_role_pollution_spec(s: Seq<char>) -> Seq<char> {
    if has_dialogue(s) {
        ROLE_POLLUTION_FALLBACK@
    } else {
        let r = trim(join_lines(kept_lines(lines(s))));
        if r.len() == 0 {
            EMPTY_RESPONSE_FALLBACK@
        } else {
            r
        }
    }
}

/// The cleaned text of a response and the stop sequence it was cut at.
pub open spec fn clean_spec(s: Seq<char>, t: TemplateConfig, stops: Seq<Seq<char>>, eos: Seq<char>) -> (
    Seq<char>,
    Option<Seq<char>>,
) {
    let (cut, stopped) = stop_scan(s, stops, eos);
    let a = remove_echoes(cut, t.assistant_prefix@, t.assistant_suffix@);
    let b = strip_markers(a);
    (trim(remove_role_pollution_spec(b)), stopped)
}

pub open spec fn opt_view(o: Option<String>) -> Option<Seq<char>> {
    match o {
        Some(s) => Some(s@),
        None => None,
    }
}

/// Stateless functions that format prompts and clean generated text.
pub struct TemplateEngine;

impl TemplateEngine {
    /// The prompt for `messages` under `template`.
    pub fn format_prompt(messages: &[Message], template: &TemplateConfig) -> (r: String)
        ensures
            r@ == prompt_of(messages@, *template),
    {
        let mut prompt = String::new();
        let mut has_system = false;
        let mut i: usize = 0;
        while i < messages.len()
            invariant
                i <= messages.len(),
                prompt@ + prompt_from(messages@, *template, i as int, has_system) == prompt_of(
                    messages@,
                    *template,
                ),
            decreases messages.len() - i,
        {
            let ghost before = prompt@;
            let ghost seen = has_system;
            let message = &messages[i];
            match message.role {
                Role::System => {
                    has_system = true;
                    Self::write_message(
                        &mut prompt,
                        template.system_prefix.as_str(),
                        message.content.as_str(),
                        template.system_suffix.as_str(),
                    );
                },
                Role::User => {
                    if !has_system {
                        has_system = true;
                        Self::write_message(
                            &mut prompt,
                            template.system_prefix.as_str(),
                            template.default_system_prompt.as_str(),
                            template.system_suffix.as_str(),
                        );
                    }
                    Self::write_message(
                        &mut prompt,
                        template.user_prefix.as_str(),
                        message.content.as_str(),
                        template.user_suffix.as_str(),
                    );
                },
                Role::Assistant => {
                    Self::write_message(
                        &mut prompt,
                        template.assistant_prefix.as_str(),
                        message.content.as_str(),
                        template.assistant_suffix.as_str(),
                    );
                },
            }
            let ghost rest = prompt_from(messages@, *template, i + 1, has_system);
            assert(prompt@ + rest =~= before + prompt_from(messages@, *template, i as int, seen));
            i = i + 1;
        }
        prompt.append(template.assistant_prefix.as_str());
        prompt
    }

    /// The text cut before the earliest stop sequence or `eos_token`, with
    /// the sequence found there.
    pub(crate) fn truncate_at_stop_sequence(text: &Vec<char>, stop_sequences: &[String], eos_token: &str) -> (r: (
        Vec<char>,
        Option<String>,
    ))
        ensures
            (r.0@, opt_view(r.1)) == stop_scan(text@, str_views(stop_sequences@), eos_token@),
    {
        let ghost cands = stop_candidates(str_views(stop_sequences@), eos_token@);
        let n = stop_sequences.len();
        let mut best: Option<(usize, usize)> = None;
        let mut k: usize = 0;
        assert(cands.subrange(0, 0) =~= Seq::<Seq<char>>::empty());
        while k <= n
            invariant_except_break
                match best {
                    Some((p, i)) => earliest_stop(text@, cands.subrange(0, k as int)) == Some(
                        (p as int, i as int),
                    ),
                    None => earliest_stop(text@, cands.subrange(0, k as int)) is None,
                },
            invariant
                n == stop_sequences@.len(),
                k <= n,
                cands == stop_candidates(str_views(stop_sequences@), eos_token@),
            ensures
                match best {
                    Some((p, i)) => earliest_stop(text@, cands) == Some((p as int, i as int)),
                    None => earliest_stop(text@, cands) is None,
                },
            decreases n + 1 - k,
        {
            let cand = if k < n {
                chars_of(stop_sequences[k].as_str())
            } else {
                chars_of(eos_token)
            };
            assert(cand@ == cands[k as int]);
            assert(cands.subrange(0, k + 1).drop_last() =~= cands.subrange(0, k as int));
            assert(cands.subrange(0, k + 1).last() == cands[k as int]);
            match find(text, &cand) {
                Some(pos) => {
                    match best {
                        Some((q, _)) => {
                            if pos < q {
                                best = Some((pos, k));
                            }
                        },
                        None => {
                            best = Some((pos, k));
                        },
                    }
                },
                None => {},
            }
            if k == n {
                assert(cands.subrange(0, k + 1) =~= cands);
                break;
            }
            k = k + 1;
        }
        proof {
            lemma_earliest_stop_bounds(text@, cands);
        }
        match best {
            Some((pos, idx)) => {
                let cut = slice_of(text, 0, pos);
                if idx < n {
                    (cut, Some(stop_sequences[idx].clone()))
                } else {
                    (cut, Some(String::from_str(eos_token)))
                }
            },
            None => {
                assert(text@.subrange(0, text@.len() as int) =~= text@);
                (slice_of(text, 0, text.len()), None)
            },
        }
    }

    /// The text without the assistant prefix and suffix that the model echoed.
    fn remove_template_echoes(text: &Vec<char>, template: &TemplateConfig) -> (r: Vec<char>)
        ensures
            r@ == remove_echoes(text@, template.assistant_prefix@, template.assistant_suffix@),
    {
        let prefix = chars_of(template.assistant_prefix.as_str());
        let suffix = chars_of(template.assistant_suffix.as_str());
        let a = if prefix.len() > 0 && starts_with_seq(text, &prefix) {
            slice_of(text, prefix.len(), text.len())
        } else {
            slice_of(text, 0, text.len())
        };
        assert(text@.subrange(0, text@.len() as int) =~= text@);
        if suffix.len() > 0 && ends_with_seq(&a, &suffix) {
            slice_of(&a, 0, a.len() - suffix.len())
        } else {
            a
        }
    }

    /// One pass that removes each control marker in turn.
    fn strip_markers_pass(text: &Vec<char>) -> (r: Vec<char>)
        ensures
            r@ == strip_markers_upto(text@, MARKER_COUNT as int),
    {
        let mut cur = slice_of(text, 0, text.len());
        assert(text@.subrange(0, text@.len() as int) =~= text@);
        let empty: Vec<char> = Vec::new();
        let mut k: usize = 0;
        while k < MARKER_COUNT
            invariant
                k <= MARKER_COUNT,
                empty@ == Seq::<char>::empty(),
                cur@ == strip_markers_upto(text@, k as int),
            decreases MARKER_COUNT - k,
        {
            let m = marker_chars(k);
            cur = replace_seq(&cur, &m, &empty);
            k = k + 1;
        }
        cur
    }

    /// The text with every template control marker removed, pass after pass
    /// until none is left.
    pub(crate) fn remove_template_markers(text: &Vec<char>) -> (r: Vec<char>)
        ensures
            r@ == strip_markers(text@),
    {
        let mut cur = slice_of(text, 0, text.len());
        assert(text@.subrange(0, text@.len() as int) =~= text@);
        loop
            invariant
                strip_markers(text@) == strip_markers(cur@),
            decreases cur@.len(),
        {
            let next = Self::strip_markers_pass(&cur);
            if next.len() < cur.len() {
                cur = next;
            } else {
                return next;
            }
        }
    }

    /// The first role pattern that `s` starts with.
    fn leading_role_of(s: &Vec<char>) -> (r: Option<usize>)
        ensures
            match r {
                Some(k) => leading_role(s@, 0) == Some(k as int) && k < ROLE_PATTERN_COUNT
                    && starts_with(s@, role_pattern(k as int)),
                None => leading_role(s@, 0) is None,
            },
    {
        let mut k: usize = 0;
        while k < ROLE_PATTERN_COUNT
            invariant
                k <= ROLE_PATTERN_COUNT,
                leading_role(s@, 0) == leading_role(s@, k as int),
            decreases ROLE_PATTERN_COUNT - k,
        {
            let p = role_pattern_chars(k);
            if starts_with_seq(s, &p) {
                return Some(k);
            }
            k = k + 1;
        }
        None
    }

    /// Whether the text shows both sides of a transcript.
    fn has_dialogue_pattern(text: &Vec<char>) -> (r: bool)
        ensures
            r == has_dialogue(text@),
    {
        let ai = chars_of("AI:");
        let you = chars_of("You:");
        contains_seq(text, &ai) && contains_seq(text, &you)
    }

    /// One line with its role marker taken off, or `None` when nothing is left.
    fn clean_role_from_line(line: &Vec<char>) -> (r: Option<Vec<char>>)
        ensures
            match r {
                Some(c) => clean_line(line@) == Some(c@),
                None => clean_line(line@) is None,
            },
    {
        let trimmed = trim_start_seq(line);
        if Self::leading_role_of(&trimmed).is_some() {
            let mut cur = slice_of(&trimmed, 0, trimmed.len());
            assert(trimmed@.subrange(0, trimmed@.len() as int) =~= trimmed@);
            loop
                invariant_except_break
                    strip_roles(trimmed@) == strip_roles(cur@),
                ensures
                    strip_roles(trimmed@) == cur@,
                decreases cur@.len(),
            {
                match Self::leading_role_of(&cur) {
                    None => break,
                    Some(k) => {
                        let p = role_pattern_chars(k);
                        let rest = trim_seq(&slice_of(&cur, p.len(), cur.len()));
                        if rest.len() < cur.len() {
                            cur = rest;
                        } else {
                            cur = rest;
                            break;
                        }
                    },
                }
            }
            if cur.len() > 0 {
                return Some(cur);
            } else {
                return None;
            }
        }
        let mut cleaned = slice_of(line, 0, line.len());
        let mut j: usize = 0;
        while j < ROLE_PATTERN_COUNT
            invariant
                j <= ROLE_PATTERN_COUNT,
                leading_role(trimmed@, 0) is None,
                trimmed@ == trim_start(line@),
                cleaned@ == mid_clean(line@, j as int),
            decreases ROLE_PATTERN_COUNT - j,
        {
            let p = role_pattern_chars(j);
            if contains_seq(&cleaned, &p) && !starts_with_seq(&cleaned, &p) {
                let nl = chars_of("\n");
                let mut nl_p = chars_of("\n");
                append_seq(&mut nl_p, &p);
                let dot = chars_of(". ");
                let mut dot_p = chars_of(". ");
                append_seq(&mut dot_p, &p);
                let c1 = replace_seq(&cleaned, &nl_p, &nl);
                cleaned = replace_seq(&c1, &dot_p, &dot);
            }
            j = j + 1;
        }
        Some(cleaned)
    }

    /// A dialogue leak becomes the refusal line; otherwise role markers are
    /// taken off line by line, and an empty result becomes the fallback line.
    fn remove_role_pollution_chars(text: &Vec<char>) -> (r: Vec<char>)
        ensures
            r@ == remove_role_pollution_spec(text@),
    {
        if Self::has_dialogue_pattern(text) {
            return chars_of(ROLE_POLLUTION_FALLBACK);
        }
        let ls = lines_of(text);
        let ghost lv = views(ls@);
        let mut out: Vec<char> = Vec::new();
        let mut any = false;
        let mut i: usize = 0;
        assert(lv.subrange(0, 0) =~= Seq::<Seq<char>>::empty());
        while i < ls.len()
            invariant
                i <= ls.len(),
                lv == views(ls@),
                lv == lines(text@),
                out@ == join_lines(kept_lines(lv.subrange(0, i as int))),
                any == (kept_lines(lv.subrange(0, i as int)).len() > 0),
            decreases ls.len() - i,
        {
            let ghost prev = kept_lines(lv.subrange(0, i as int));
            assert(lv.subrange(0, i + 1).drop_last() =~= lv.subrange(0, i as int));
            assert(lv.subrange(0, i + 1).last() == ls@[i as int]@);
            match Self::clean_role_from_line(&ls[i]) {
                Some(c) => {
                    if c.len() > 0 {
                        assert(prev.push(c@).drop_last() =~= prev);
                        if any {
                            out.push('\n');
                            append_seq(&mut out, &c);
                            assert(out@ =~= join_lines(prev) + seq!['\n'] + c@);
                        } else {
                            out = slice_of(&c, 0, c.len());
                        }
                        any = true;
                    }
                },
                None => {},
            }
            i = i + 1;
        }
        assert(lv.subrange(0, ls@.len() as int) =~= lv);
        let result = trim_seq(&out);
        if result.len() == 0 {
            chars_of(EMPTY_RESPONSE_FALLBACK)
        } else {
            result
        }
    }

    /// A dialogue leak becomes the refusal line; otherwise role markers are
    /// taken off line by line, and an empty result becomes the fallback line.
    pub fn remove_role_pollution(text: &str) -> (r: String)
        ensures
            r@ == remove_role_pollution_spec(text@),
    {
        let t = chars_of(text);
        string_of(&Self::remove_role_pollution_chars(&t))
    }

    /// The cleaned response: cut at the first stop sequence, echoes and markers
    /// removed, role pollution handled, surrounding whitespace trimmed.
    pub fn clean_response(
        response: &str,
        template: &TemplateConfig,
        stop_sequences: &[String],
        eos_token: &str,
    ) -> (r: CleanedResponse)
        ensures
            (r.content@, opt_view(r.stopped_at)) == clean_spec(
                response@,
                *template,
                str_views(stop_sequences@),
                eos_token@,
            ),
    {
        let text = chars_of(response);
        let (cut, stopped_at) = Self::truncate_at_stop_sequence(&text, stop_sequences, eos_token);
        let a = Self::remove_template_echoes(&cut, template);
        let b = Self::remove_template_markers(&a);
        let c = Self::remove_role_pollution_chars(&b);
        let d = trim_seq(&c);
        CleanedResponse { content: string_of(&d), stopped_at }
    }

    /// The first stop sequence, in the order `stop_sequences` then `eos_token`,
    /// that stands anywhere in `text`.
    pub fn contains_stop_sequence(text: &str, stop_sequences: &[String], eos_token: &str) -> (r:
        Option<String>)
        ensures
            opt_view(r) == listed_stop(text@, str_views(stop_sequences@), eos_token@),
    {
        let t = chars_of(text);
        let ghost cands = stop_candidates(str_views(stop_sequences@), eos_token@);
        let n = stop_sequences.len();
        let mut k: usize = 0;
        assert(cands.subrange(0, 0) =~= Seq::<Seq<char>>::empty());
        while k < n
            invariant
                n == stop_sequences@.len(),
                k <= n,
                t@ == text@,
                cands == stop_candidates(str_views(stop_sequences@), eos_token@),
                listed_stop_index(text@, cands.subrange(0, k as int)) is None,
            decreases n - k,
        {
            let cand = chars_of(stop_sequences[k].as_str());
            assert(cand@ == cands[k as int]);
            assert(cands.subrange(0, k + 1).drop_last() =~= cands.subrange(0, k as int));
            assert(cands.subrange(0, k + 1).last() == cands[k as int]);
            if contains_seq(&t, &cand) {
                proof {
                    lemma_listed_prefix(text@, cands, k + 1);
                }
                return Some(stop_sequences[k].clone());
            }
            k = k + 1;
        }
        let e = chars_of(eos_token);
        assert(cands.drop_last() =~= cands.subrange(0, n as int));
        assert(cands.last() == eos_token@);
        if contains_seq(&t, &e) {
            Some(String::from_str(eos_token))
        } else {
            None
        }
    }

    /// Adds a streamed piece to `buffer`. Once the buffer holds a stop
    /// sequence, the whole buffer is cleaned and handed back as complete, and
    /// the buffer is emptied; before that, a non-empty piece is handed back
    /// with its role pollution handled.
    pub fn process_stream_chunk(
        chunk: &str,
        template: &TemplateConfig,
        stop_sequences: &[String],
        eos_token: &str,
        buffer: &mut String,
    ) -> (r: StreamChunkResult)
        ensures
            ({
                let acc = old(buffer)@ + chunk@;
                let stops = str_views(stop_sequences@);
                match listed_stop(acc, stops, eos_token@) {
                    Some(stop) => {
                        &&& r matches StreamChunkResult::Complete { content, stopped_at }
                        &&& content@ == clean_spec(acc, *template, stops, eos_token@).0
                        &&& opt_view(stopped_at) == Some(stop)
                        &&& final(buffer)@ == Seq::<char>::empty()
                    },
                    None => {
                        &&& final(buffer)@ == acc
                        &&& chunk@.len() > 0 ==> (r matches StreamChunkResult::Partial { content }
                            && content@ == remove_role_pollution_spec(chunk@))
                        &&& chunk@.len() == 0 ==> r is Buffering
                    },
                }
            }),
    {
        buffer.append(chunk);
        match Self::contains_stop_sequence(buffer.as_str(), stop_sequences, eos_token) {
            Some(stop) => {
                let cleaned = Self::clean_response(
                    buffer.as_str(),
                    template,
                    stop_sequences,
                    eos_token,
                );
                *buffer = String::new();
                StreamChunkResult::Complete { content: cleaned.content, stopped_at: Some(stop) }
            },
            None => {
                let piece = chars_of(chunk);
                if piece.len() > 0 {
                    let cleaned = Self::remove_role_pollution_chars(&piece);
                    StreamChunkResult::Partial { content: string_of(&cleaned) }
                } else {
                    StreamChunkResult::Buffering
                }
            },
        }
    }

    /// Appends prefix, content and suffix to the prompt.
    fn write_message(prompt: &mut String, prefix: &str, content: &str, suffix: &str)
        ensures
            final(prompt)@ == old(prompt)@ + turn(prefix@, content@, suffix@),
    {
        prompt.append(prefix);
        prompt.append(content);
        prompt.append(suffix);
        assert(prompt@ =~= old(prompt)@ + turn(prefix@, content@, suffix@));
    }
}

} // verus!
