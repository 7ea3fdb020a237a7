//! What holds of the grammar as a whole.

use vstd::prelude::*;
use crate::grammar::{
    argument_match, argument_maybe_match, argument_spaced_match, arguments_match, call_match,
    call_name_match, consumed, is_alphanumeric, is_plain, is_rest_of, is_separator, is_tight,
    is_whitespace, run_len, sep_argument_match, sep_spaced_match, separator_count, skip_blanks,
    trim_end, trim_start, trimmed, CharClass,
};
use crate::runs::{lemma_run_len_is_maximal, lemma_run_of_split};

verus! {

/// Text without a separator in it is read as one argument up to the
/// separator that follows it, or to the end: where `text` is not empty and
/// `tail` is empty or begins with a separator, `argument` on `text + tail`
/// yields `text` and leaves `tail`.
pub proof fn lemma_argument_reads_to_separator(text: Seq<char>, tail: Seq<char>)
    requires
        text.len() > 0,
        is_plain(text),
        tail.len() > 0 ==> is_separator(tail[0]),
    ensures
        argument_match(text + tail) == Some((tail, text)),
{
    lemma_run_of_split(text, tail, CharClass::Text);
}

/// Text that neither begins nor ends with whitespace is what trimming
/// leaves of it.
pub proof fn lemma_trimmed_keeps_tight_text(text: Seq<char>)
    requires
        is_tight(text),
    ensures
        trimmed(text) == text,
{
}

/// A non-empty text with no separator in it and no whitespace at either
/// end, followed by a comma, is read whole by `argument`, by
/// `argument_spaced` and by `argument_maybe`, and the comma is left.
pub proof fn lemma_argument_before_comma(text: Seq<char>)
    requires
        text.len() > 0,
        is_plain(text),
        is_tight(text),
    ensures
        argument_match(text + seq![',']) == Some((seq![','], text)),
        argument_spaced_match(text + seq![',']) == Some((seq![','], text)),
        argument_maybe_match(text + seq![',']) == (seq![','], text),
{
    lemma_argument_reads_to_separator(text, seq![',']);
    lemma_trimmed_keeps_tight_text(text);
}

/// What is left when the whitespace at the head of a text is removed is a
/// tail of the text that does not begin with whitespace.
pub proof fn lemma_trim_start_is_tail(s: Seq<char>)
    ensures
        is_rest_of(trim_start(s), s),
        trim_start(s).len() > 0 ==> !is_whitespace(trim_start(s).first()),
    decreases s.len(),
{
    if s.len() > 0 && is_whitespace(s.first()) {
        let tail = s.drop_first();
        lemma_trim_start_is_tail(tail);
        let t = trim_start(s);
        assert(t =~= s.skip(s.len() - t.len()));
    } else {
        assert(s =~= s.skip(0));
    }
}

/// What is left when the whitespace at the tail of a text is removed is a
/// head of the text that does not end with whitespace.
pub proof fn lemma_trim_end_is_head(s: Seq<char>)
    ensures
        trim_end(s).len() <= s.len(),
        trim_end(s) == s.take(trim_end(s).len() as int),
        trim_end(s).len() > 0 ==> !is_whitespace(trim_end(s).last()),
    decreases s.len(),
{
    if s.len() > 0 && is_whitespace(s.last()) {
        let head = s.drop_last();
        lemma_trim_end_is_head(head);
        let t = trim_end(s);
        assert(t =~= s.take(t.len() as int));
    } else {
        assert(s =~= s.take(s.len() as int));
    }
}

/// Trimming leaves a stretch of the text that neither begins nor ends
/// with whitespace; a text without separators stays without them.
pub proof fn lemma_trimmed_is_tight(s: Seq<char>)
    ensures
        is_tight(trimmed(s)),
        trimmed(s).len() <= s.len(),
        is_plain(s) ==> is_plain(trimmed(s)),
{
    let inner = trim_start(s);
    lemma_trim_start_is_tail(s);
    lemma_trim_end_is_head(inner);
    let t = trimmed(s);
    if t.len() > 0 {
        assert(t.first() == inner.take(t.len() as int)[0]);
    }
    if is_plain(s) {
        assert forall|i: int| 0 <= i < t.len() implies !is_separator(#[trigger] t[i]) by {
            assert(t[i] == inner.take(t.len() as int)[i]);
            assert(inner[i] == s.skip(s.len() - inner.len())[i]);
        }
    }
}

/// The separators of a text made of two parts are those of the parts.
pub proof fn lemma_separator_count_of_parts(a: Seq<char>, b: Seq<char>)
    ensures
        separator_count(a + b) == separator_count(a) + separator_count(b),
    decreases b.len(),
{
    if b.len() == 0 {
        assert(a + b =~= a);
    } else {
        assert((a + b).drop_last() =~= a + b.drop_last());
        lemma_separator_count_of_parts(a, b.drop_last());
    }
}

/// A text without separators counts none.
pub proof fn lemma_plain_counts_no_separator(s: Seq<char>)
    requires
        is_plain(s),
    ensures
        separator_count(s) == 0,
    decreases s.len(),
{
    if s.len() > 0 {
        assert(!is_separator(s[s.len() - 1]));
        lemma_plain_counts_no_separator(s.drop_last());
    }
}

/// No class holds a separator, so a run of any class is a text without
/// separators.
proof fn lemma_run_is_plain(s: Seq<char>, class: CharClass)
    ensures
        is_plain(s.take(run_len(s, class) as int)),
        run_len(s, class) <= s.len(),
{
    lemma_run_len_is_maximal(s, class);
    let run = s.take(run_len(s, class) as int);
    assert forall|i: int| 0 <= i < run.len() implies !is_separator(#[trigger] run[i]) by {
        assert(class.has(s[i]));
    }
}

/// One separator with its argument: what is left is a shorter tail of the
/// text, exactly one separator was consumed, and the argument holds no
/// separator and no whitespace at either end.
pub proof fn lemma_sep_argument_takes_one_separator(s: Seq<char>)
    requires
        sep_argument_match(s) is Some,
    ensures
        ({
            let (rest, argument) = sep_argument_match(s)->0;
            &&& rest.len() < s.len()
            &&& is_rest_of(rest, s)
            &&& separator_count(consumed(s, rest)) == 1
            &&& is_plain(argument)
            &&& is_tight(argument)
        }),
{
    let (rest, argument) = sep_argument_match(s)->0;
    let lead = s.take(run_len(s, CharClass::Blank) as int);
    let at_sep = skip_blanks(s);
    lemma_run_is_plain(s, CharClass::Blank);
    let after_sep = at_sep.skip(1);
    let mark = at_sep.take(1);
    let trail = after_sep.take(run_len(after_sep, CharClass::Blank) as int);
    let at_argument = skip_blanks(after_sep);
    lemma_run_is_plain(after_sep, CharClass::Blank);
    let text = at_argument.take(run_len(at_argument, CharClass::Text) as int);
    lemma_run_is_plain(at_argument, CharClass::Text);
    assert(rest == at_argument.skip(text.len() as int)) by {
        if text.len() == 0 {
            assert(at_argument.skip(0) =~= at_argument);
        }
    }
    assert(rest =~= s.skip(s.len() - rest.len()));
    assert(consumed(s, rest) =~= ((lead + mark) + trail) + text);
    lemma_separator_count_of_parts((lead + mark) + trail, text);
    lemma_separator_count_of_parts(lead + mark, trail);
    lemma_separator_count_of_parts(lead, mark);
    lemma_plain_counts_no_separator(lead);
    lemma_plain_counts_no_separator(trail);
    lemma_plain_counts_no_separator(text);
    assert(separator_count(mark) == 1) by {
        assert(mark.drop_last() =~= Seq::<char>::empty());
        assert(separator_count(mark.drop_last()) == 0);
    }
    if text.len() > 0 {
        lemma_trimmed_is_tight(text);
    }
}

/// The argument list as a whole: what is left is a tail of the text at
/// which no further separator stands, there is one argument for each
/// separator that was consumed, and no argument holds a separator or has
/// whitespace at either end.
pub proof fn lemma_arguments_match_separators(s: Seq<char>)
    ensures
        ({
            let (rest, args) = arguments_match(s);
            &&& is_rest_of(rest, s)
            &&& sep_spaced_match(rest) is None
            &&& separator_count(consumed(s, rest)) == args.len()
            &&& forall|k: int| 0 <= k < args.len() ==> is_plain(#[trigger] args[k]) && is_tight(args[k])
        }),
    decreases s.len(),
{
    let (rest, args) = arguments_match(s);
    match sep_argument_match(s) {
        Some((next, argument)) => {
            lemma_sep_argument_takes_one_separator(s);
            lemma_arguments_match_separators(next);
            let more = arguments_match(next).1;
            assert(rest =~= s.skip(s.len() - rest.len()));
            assert(consumed(s, rest) =~= consumed(s, next) + consumed(next, rest));
            lemma_separator_count_of_parts(consumed(s, next), consumed(next, rest));
            assert forall|k: int| 0 <= k < args.len() implies is_plain(#[trigger] args[k])
                && is_tight(args[k]) by {
                if k > 0 {
                    assert(args[k] == more[k - 1]);
                }
            }
        },
        None => {
            assert(s =~= s.skip(0));
            assert(consumed(s, rest) =~= Seq::<char>::empty());
        },
    }
}

/// Reading the arguments a second time, from where the first reading
/// stopped, finds none and consumes nothing.
pub proof fn lemma_arguments_stop_for_good(s: Seq<char>)
    ensures
        arguments_match(arguments_match(s).0) == (arguments_match(s).0, Seq::<Seq<char>>::empty()),
{
    lemma_arguments_match_separators(s);
}

/// A parsed call: its name is the non-empty run of letters and digits at
/// the head of the text, what is left is a tail of the text at which no
/// further separator stands, there is one argument for each separator that
/// was consumed, and no argument holds a separator or has whitespace at
/// either end.
pub proof fn lemma_call_match_is_well_formed(s: Seq<char>)
    requires
        call_match(s) is Some,
    ensures
        ({
            let (rest, call) = call_match(s)->0;
            &&& call.name.len() > 0
            &&& call.name.is_prefix_of(s)
            &&& forall|i: int| 0 <= i < call.name.len() ==> is_alphanumeric(#[trigger] call.name[i])
            &&& is_rest_of(rest, s)
            &&& sep_spaced_match(rest) is None
            &&& separator_count(consumed(s, rest)) == call.args.len()
            &&& forall|k: int|
                0 <= k < call.args.len() ==> is_plain(#[trigger] call.args[k]) && is_tight(
                    call.args[k],
                )
        }),
{
    let (rest, call) = call_match(s)->0;
    let (after_name, name) = call_name_match(s)->0;
    lemma_run_len_is_maximal(s, CharClass::Alphanumeric);
    lemma_run_is_plain(s, CharClass::Alphanumeric);
    lemma_arguments_match_separators(after_name);
    assert(rest =~= s.skip(s.len() - rest.len()));
    assert(consumed(s, rest) =~= name + consumed(after_name, rest));
    lemma_separator_count_of_parts(name, consumed(after_name, rest));
    lemma_plain_counts_no_separator(name);
}

/// Parsing has no memory: what `call` yields is a function of the
/// characters it is given. So the text that a successful parse left over
/// is parsed as any fresh text with the same characters is.
pub proof fn lemma_rest_parses_as_fresh_text(s: Seq<char>, fresh: Seq<char>)
    requires
        call_match(s) is Some,
        fresh =~= (call_match(s)->0).0,
    ensures
        call_match((call_match(s)->0).0) == call_match(fresh),
        arguments_match((call_match(s)->0).0) == arguments_match(fresh),
        arguments_match(fresh) == (fresh, Seq::<Seq<char>>::empty()),
{
    lemma_call_match_is_well_formed(s);
}

} // verus!
