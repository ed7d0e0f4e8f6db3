//! The texts that a live session leaves behind: the note of the session and the
//! lines that a broadcast shows.

use vstd::prelude::*;

use crate::live_options::LiveMarkdownNoteOptions;
use crate::text;

verus! {

/// A text as one line: its words with a space between each two.
pub open spec fn one_line(line: Seq<char>) -> Seq<char> {
    text::joined(text::words_of(line), " "@)
}

/// Makes one line of a text.
pub fn normalize_markdown_line(line: &str) -> (out: String)
    ensures
        out@ == one_line(line@),
{
    text::join_texts(&text::split_words(line), " ")
}

/// Whether no character but the space is white.
pub open spec fn only_spaces(line: Seq<char>) -> bool {
    forall|i: int| 0 <= i < line.len() && text::white(#[trigger] line[i]) ==> line[i] == ' '
}

/// Whether a text is words with one space between each two: it neither begins nor
/// ends with white space, and its only white space is single spaces.
pub open spec fn is_spaced(line: Seq<char>) -> bool {
    &&& only_spaces(line)
    &&& line.len() > 0 ==> !text::white(line[0]) && !text::white(line.last())
    &&& forall|i: int|
        0 <= i < line.len() - 1 && text::white(#[trigger] line[i]) ==> !text::white(line[i + 1])
}

/// Whether a text is a word.
spec fn is_word(word: Seq<char>) -> bool {
    word.len() > 0 && forall|i: int| 0 <= i < word.len() ==> !text::white(#[trigger] word[i])
}

spec fn all_words(words: Seq<Seq<char>>) -> bool {
    forall|k: int| 0 <= k < words.len() ==> is_word(#[trigger] words[k])
}

proof fn lemma_words_are_words(current: Seq<char>, rest: Seq<char>)
    requires
        current.len() > 0 ==> is_word(current),
    ensures
        all_words(text::words_from(current, rest)),
    decreases rest.len(),
{
    let words = text::words_from(current, rest);
    if rest.len() > 0 {
        if text::white(rest[0]) {
            lemma_words_are_words(seq![], rest.drop_first());
        } else {
            let longer = current.push(rest[0]);
            assert(is_word(longer)) by {
                assert forall|i: int| 0 <= i < longer.len() implies !text::white(
                    #[trigger] longer[i],
                ) by {
                    if i < current.len() {
                        assert(longer[i] == current[i]);
                    }
                }
            }
            lemma_words_are_words(longer, rest.drop_first());
        }
    }
    assert forall|k: int| 0 <= k < words.len() implies is_word(#[trigger] words[k]) by {
        if rest.len() > 0 && text::white(rest[0]) {
            let later = text::words_from(seq![], rest.drop_first());
            if current.len() == 0 {
                assert(is_word(later[k]));
            } else if k > 0 {
                assert(is_word(later[k - 1]));
            }
        } else if rest.len() > 0 {
            let later = text::words_from(current.push(rest[0]), rest.drop_first());
            assert(is_word(later[k]));
        }
    }
}

proof fn lemma_joined_is_spaced(parts: Seq<Seq<char>>)
    requires
        all_words(parts),
    ensures
        is_spaced(text::joined(parts, " "@)),
        parts.len() > 0 ==> text::joined(parts, " "@).len() > 0,
    decreases parts.len(),
{
    reveal_strlit(" ");
    if parts.len() > 1 {
        assert(all_words(parts.drop_last())) by {
            assert forall|k: int| 0 <= k < parts.drop_last().len() implies is_word(
                #[trigger] parts.drop_last()[k],
            ) by {
                assert(is_word(parts[k]));
            }
        }
        lemma_joined_is_spaced(parts.drop_last());
        let init = text::joined(parts.drop_last(), " "@);
        let last = parts.last();
        let out = text::joined(parts, " "@);
        assert(is_word(parts[parts.len() - 1]));
        assert forall|i: int| 0 <= i < out.len() implies #[trigger] out[i] == (if i < init.len() {
            init[i]
        } else if i == init.len() {
            ' '
        } else {
            last[i - init.len() - 1]
        }) by {}
        assert(out[0] == init[0]);
        assert(out.last() == last[last.len() - 1]);
        assert forall|i: int|
            0 <= i < out.len() - 1 && text::white(#[trigger] out[i]) implies !text::white(
            out[i + 1],
        ) by {
            if i == init.len() - 1 {
                assert(out[i] == init.last());
            } else if i == init.len() {
                assert(out[i + 1] == last[0]);
            } else if i < init.len() {
                assert(out[i + 1] == init[i + 1]);
            }
        }
    } else if parts.len() == 1 {
        assert(is_word(parts[0]));
    }
}

proof fn lemma_word_is_one_word(current: Seq<char>, word: Seq<char>)
    requires
        is_word(word),
    ensures
        text::words_from(current, word) == seq![current + word],
    decreases word.len(),
{
    let longer = current.push(word[0]);
    let rest = word.drop_first();
    assert(!text::white(word[0]));
    if rest.len() == 0 {
        assert(current + word =~= longer);
        assert(text::words_from(longer, rest) =~= seq![longer]);
    } else {
        assert forall|i: int| 0 <= i < rest.len() implies !text::white(#[trigger] rest[i]) by {
            assert(rest[i] == word[i + 1]);
        }
        lemma_word_is_one_word(longer, rest);
        assert(longer + rest =~= current + word);
    }
}

proof fn lemma_word_behind_a_space(current: Seq<char>, before: Seq<char>, word: Seq<char>)
    requires
        is_word(word),
    ensures
        text::words_from(current, before + seq![' '] + word) == text::words_from(
            current,
            before,
        ).push(word),
    decreases before.len(),
{
    let whole = before + seq![' '] + word;
    if before.len() == 0 {
        assert(whole[0] == ' ');
        assert(whole.drop_first() =~= word);
        lemma_word_is_one_word(seq![], word);
        assert(Seq::<char>::empty() + word =~= word);
        assert(text::words_from(seq![], word) == seq![word]);
        assert(text::words_from(current, whole) =~= text::words_from(current, before).push(word));
    } else {
        let rest = before.drop_first();
        assert(whole[0] == before[0]);
        assert(whole.drop_first() =~= rest + seq![' '] + word);
        if text::white(before[0]) {
            lemma_word_behind_a_space(seq![], rest, word);
            assert(seq![current] + text::words_from(seq![], rest).push(word) =~= (seq![current]
                + text::words_from(seq![], rest)).push(word));
        } else {
            lemma_word_behind_a_space(current.push(before[0]), rest, word);
        }
    }
}

proof fn lemma_joined_words_are_found(parts: Seq<Seq<char>>)
    requires
        all_words(parts),
    ensures
        text::words_of(text::joined(parts, " "@)) == parts,
    decreases parts.len(),
{
    reveal_strlit(" ");
    assert(" "@ =~= seq![' ']);
    if parts.len() == 0 {
        assert(text::words_of(seq![]) =~= parts);
    } else if parts.len() == 1 {
        assert(is_word(parts[0]));
        lemma_word_is_one_word(seq![], parts[0]);
        assert(Seq::<char>::empty() + parts[0] =~= parts[0]);
        assert(seq![parts[0]] =~= parts);
    } else {
        let init = parts.drop_last();
        assert(all_words(init)) by {
            assert forall|k: int| 0 <= k < init.len() implies is_word(#[trigger] init[k]) by {
                assert(is_word(parts[k]));
            }
        }
        lemma_joined_words_are_found(init);
        assert(is_word(parts[parts.len() - 1]));
        lemma_word_behind_a_space(seq![], text::joined(init, " "@), parts.last());
        assert(init.push(parts.last()) =~= parts);
    }
}

/// A text made one line has no line break, tab or other white space but spaces.
pub proof fn law_one_line_has_no_breaks(line: Seq<char>)
    ensures
        only_spaces(one_line(line)),
{
    law_one_line_is_spaced(line);
}

/// A text made one line neither begins nor ends with white space, and has one space
/// and no more between each two words.
pub proof fn law_one_line_is_spaced(line: Seq<char>)
    ensures
        is_spaced(one_line(line)),
{
    lemma_words_are_words(seq![], line);
    lemma_joined_is_spaced(text::words_of(line));
}

/// A text made one line has the words of the text, in their order.
pub proof fn law_one_line_keeps_the_words(line: Seq<char>)
    ensures
        text::words_of(one_line(line)) == text::words_of(line),
{
    lemma_words_are_words(seq![], line);
    lemma_joined_words_are_found(text::words_of(line));
}

/// A text that was made one line is left as it is.
pub proof fn law_one_line_is_left_alone(line: Seq<char>)
    ensures
        one_line(one_line(line)) == one_line(line),
{
    law_one_line_keeps_the_words(line);
}

/// Whether a character means something in Markdown.
pub open spec fn is_markup(c: char) -> bool {
    c == '\\' || c == '`' || c == '*' || c == '_' || c == '{' || c == '}' || c == '[' || c == ']'
        || c == '(' || c == ')' || c == '#' || c == '+' || c == '-' || c == '!' || c == '|' || c
        == '>'
}

/// A text with a backslash before each character that means something in Markdown.
pub open spec fn escaped(plain: Seq<char>) -> Seq<char>
    decreases plain.len(),
{
    if plain.len() == 0 {
        seq![]
    } else if is_markup(plain.last()) {
        escaped(plain.drop_last()).push('\\').push(plain.last())
    } else {
        escaped(plain.drop_last()).push(plain.last())
    }
}

fn has_meaning(c: char) -> (yes: bool)
    ensures
        yes == is_markup(c),
{
    c == '\\' || c == '`' || c == '*' || c == '_' || c == '{' || c == '}' || c == '[' || c == ']'
        || c == '(' || c == ')' || c == '#' || c == '+' || c == '-' || c == '!' || c == '|' || c
        == '>'
}

/// Writes a text so that Markdown shows it as it is.
pub fn escape_markdown_text(plain: &str) -> (out: String)
    ensures
        out@ == escaped(plain@),
{
    let chars = text::chars_of(plain);
    let mut out = String::new();
    let mut i: usize = 0;
    assert(chars@.take(0) =~= seq![]);
    while i < chars.len()
        invariant
            chars@ == plain@,
            i <= chars@.len(),
            out@ == escaped(chars@.take(i as int)),
        decreases chars@.len() - i,
    {
        proof {
            let taken = chars@.take(i + 1);
            assert(taken.drop_last() =~= chars@.take(i as int));
            assert(taken.last() == chars@[i as int]);
        }
        if has_meaning(chars[i]) {
            text::push_char(&mut out, '\\');
        }
        text::push_char(&mut out, chars[i]);
        i += 1;
    }
    assert(chars@.take(i as int) =~= chars@);
    out
}

/// The text that Markdown shows for one with backslashes: each stands for the
/// character after it.
pub open spec fn shown(marked: Seq<char>) -> Seq<char>
    decreases marked.len(),
{
    if marked.len() == 0 {
        seq![]
    } else if marked[0] == '\\' && marked.len() > 1 {
        seq![marked[1]] + shown(marked.skip(2))
    } else {
        seq![marked[0]] + shown(marked.drop_first())
    }
}

/// The escaped form of a character.
spec fn escaped_char(c: char) -> Seq<char> {
    if is_markup(c) {
        seq!['\\', c]
    } else {
        seq![c]
    }
}

proof fn lemma_escaped_front(plain: Seq<char>)
    requires
        plain.len() > 0,
    ensures
        escaped(plain) == escaped_char(plain[0]) + escaped(plain.drop_first()),
    decreases plain.len(),
{
    if plain.len() == 1 {
        assert(plain.drop_last() =~= seq![]);
        assert(plain.drop_first() =~= seq![]);
        assert(escaped(seq![]) =~= seq![]);
        assert(escaped(plain) =~= escaped_char(plain[0]) + escaped(plain.drop_first()));
    } else {
        lemma_escaped_front(plain.drop_last());
        let rest = plain.drop_first();
        assert(plain.drop_last().drop_first() =~= rest.drop_last());
        assert(escaped(plain) =~= escaped_char(plain[0]) + escaped(rest));
    }
}

/// Markdown shows an escaped text as it was before.
pub proof fn law_escaping_can_be_undone(plain: Seq<char>)
    ensures
        shown(escaped(plain)) == plain,
    decreases plain.len(),
{
    if plain.len() > 0 {
        let rest = plain.drop_first();
        lemma_escaped_front(plain);
        law_escaping_can_be_undone(rest);
        let marked = escaped(plain);
        if is_markup(plain[0]) {
            assert(marked.skip(2) =~= escaped(rest));
        } else {
            assert(marked.drop_first() =~= escaped(rest));
        }
        assert(plain =~= seq![plain[0]] + rest);
    }
}

/// The lines that a broadcast shows: the last ones, as many as it may hold.
pub open spec fn obs_text(lines: Seq<Seq<char>>, max_lines: nat) -> Seq<char> {
    let start = if lines.len() <= max_lines {
        0
    } else {
        lines.len() - max_lines
    };
    if start >= lines.len() {
        seq![]
    } else {
        text::joined(lines.skip(start), "\n"@) + "\n"@
    }
}

/// Renders the lines that a broadcast shows.
pub fn obs_content(lines: &Vec<String>, max_lines: usize) -> (out: String)
    ensures
        out@ == obs_text(text::texts(lines@), max_lines as nat),
{
    let line_count: usize = lines.len();
    let start: usize = line_count.saturating_sub(max_lines);
    if start >= line_count {
        return String::new();
    }
    let mut last: Vec<String> = Vec::new();
    let mut i: usize = start;
    while i < line_count
        invariant
            line_count == lines@.len(),
            start <= i <= line_count,
            text::texts(last@) == text::texts(lines@).subrange(start as int, i as int),
        decreases line_count - i,
    {
        let ghost before = text::texts(last@);
        last.push(lines[i].as_str().to_owned());
        assert(text::texts(last@) =~= before.push(text::texts(lines@)[i as int]));
        assert(text::texts(lines@).subrange(start as int, i + 1) =~= text::texts(lines@).subrange(
            start as int,
            i as int,
        ).push(text::texts(lines@)[i as int]));
        i += 1;
    }
    let mut out = text::join_texts(&last, "\n");
    out.append("\n");
    assert(text::texts(lines@).subrange(start as int, i as int) =~= text::texts(lines@).skip(
        start as int,
    ));
    out
}

/// A note with what stood in its file before: one blank line is between them.
pub open spec fn appended(existing: Seq<char>, rendered: Seq<char>) -> Seq<char> {
    if existing.len() == 0 {
        rendered
    } else if existing.last() == '\n' {
        existing + "\n"@ + rendered
    } else {
        existing + "\n\n"@ + rendered
    }
}

/// Appends a note to what stands in its file.
pub fn append_note(existing: &str, rendered: &str) -> (out: String)
    ensures
        out@ == appended(existing@, rendered@),
{
    let chars = text::chars_of(existing);
    let mut out = existing.to_owned();
    if chars.len() > 0 {
        if chars[chars.len() - 1] == '\n' {
            out.append("\n");
        } else {
            out.append("\n\n");
        }
    }
    out.append(rendered);
    assert(out@ =~= appended(existing@, rendered@));
    out
}

/// Appending keeps what stood in the file and puts the note after it, unchanged.
pub proof fn law_appending_keeps_both(existing: Seq<char>, rendered: Seq<char>)
    ensures
        text::begins(appended(existing, rendered), existing),
        appended(existing, rendered).len() >= rendered.len(),
        appended(existing, rendered).skip(appended(existing, rendered).len() - rendered.len())
            == rendered,
{
    let out = appended(existing, rendered);
    assert(out.subrange(0, existing.len() as int) =~= existing);
    assert(out.skip(out.len() - rendered.len()) =~= rendered);
}

/// A line of the transcript as it stands in the history.
pub struct HistoryEntry {
    pub start_ms: u64,
    pub end_ms: u64,
    pub source_seq: Option<u64>,
    pub utterance_id: String,
    pub segment_id: String,
    pub revision: u64,
    pub text: String,
}

/// A line of the transcript, as plain values.
#[verifier::ext_equal]
pub struct EntryView {
    pub start_ms: u64,
    pub end_ms: u64,
    pub source_seq: Option<u64>,
    pub utterance_id: Seq<char>,
    pub segment_id: Seq<char>,
    pub revision: u64,
    pub text: Seq<char>,
}

impl View for HistoryEntry {
    type V = EntryView;

    open spec fn view(&self) -> EntryView {
        EntryView {
            start_ms: self.start_ms,
            end_ms: self.end_ms,
            source_seq: self.source_seq,
            utterance_id: self.utterance_id@,
            segment_id: self.segment_id@,
            revision: self.revision,
            text: self.text@,
        }
    }
}

/// The views of a list of entries.
pub open spec fn entries_of(entries: Seq<HistoryEntry>) -> Seq<EntryView> {
    entries.map_values(|entry: HistoryEntry| entry@)
}

/// The place of an entry's event among all; one without a place comes last.
pub open spec fn sequence(entry: EntryView) -> u64 {
    match entry.source_seq {
        Some(place) => place,
        None => u64::MAX,
    }
}

/// Whether an entry comes before another in time, or by its event and names where
/// the times are the same.
pub open spec fn earlier(left: EntryView, right: EntryView) -> bool {
    if left.start_ms != right.start_ms {
        left.start_ms < right.start_ms
    } else if left.end_ms != right.end_ms {
        left.end_ms < right.end_ms
    } else if sequence(left) != sequence(right) {
        sequence(left) < sequence(right)
    } else if left.utterance_id != right.utterance_id {
        text::stands_before(left.utterance_id, right.utterance_id)
    } else {
        text::stands_before(left.segment_id, right.segment_id)
    }
}

/// Whether an entry is listed before another: the earlier one, or the one that was
/// entered first where neither is earlier.
pub open spec fn listed_before(entries: Seq<EntryView>, left: int, right: int) -> bool {
    earlier(entries[left], entries[right]) || (!earlier(entries[right], entries[left]) && left
        < right)
}

/// Whether a list of places is the order of a timeline: each entry once, each after
/// the ones listed before it.
pub open spec fn is_timeline(entries: Seq<EntryView>, order: Seq<int>) -> bool {
    &&& order.len() == entries.len()
    &&& forall|i: int| 0 <= i < order.len() ==> 0 <= #[trigger] order[i] < entries.len()
    &&& forall|i: int, j: int|
        0 <= i < j < order.len() ==> listed_before(
            entries,
            #[trigger] order[i],
            #[trigger] order[j],
        )
}

proof fn lemma_earlier(a: EntryView, b: EntryView, c: EntryView)
    ensures
        !earlier(a, a),
        earlier(a, b) ==> !earlier(b, a),
        earlier(a, b) && !earlier(c, b) ==> earlier(a, c),
        !earlier(b, a) && earlier(b, c) ==> earlier(a, c),
{
    text::lemma_text_order(a.utterance_id, b.utterance_id, c.utterance_id);
    text::lemma_text_order(a.utterance_id, c.utterance_id, b.utterance_id);
    text::lemma_text_order(b.utterance_id, a.utterance_id, c.utterance_id);
    text::lemma_text_order(b.utterance_id, c.utterance_id, a.utterance_id);
    text::lemma_text_order(c.utterance_id, a.utterance_id, b.utterance_id);
    text::lemma_text_order(c.utterance_id, b.utterance_id, a.utterance_id);
    text::lemma_text_order(a.segment_id, b.segment_id, c.segment_id);
    text::lemma_text_order(a.segment_id, c.segment_id, b.segment_id);
    text::lemma_text_order(b.segment_id, a.segment_id, c.segment_id);
    text::lemma_text_order(b.segment_id, c.segment_id, a.segment_id);
    text::lemma_text_order(c.segment_id, a.segment_id, b.segment_id);
    text::lemma_text_order(c.segment_id, b.segment_id, a.segment_id);
}

fn place_of(entry: &HistoryEntry) -> (place: u64)
    ensures
        place == sequence(entry@),
{
    match entry.source_seq {
        Some(place) => place,
        None => u64::MAX,
    }
}

fn is_earlier(left: &HistoryEntry, right: &HistoryEntry) -> (yes: bool)
    ensures
        yes == earlier(left@, right@),
{
    if left.start_ms != right.start_ms {
        left.start_ms < right.start_ms
    } else if left.end_ms != right.end_ms {
        left.end_ms < right.end_ms
    } else if place_of(left) != place_of(right) {
        place_of(left) < place_of(right)
    } else if !text::same_text(left.utterance_id.as_str(), right.utterance_id.as_str()) {
        text::is_before(left.utterance_id.as_str(), right.utterance_id.as_str())
    } else {
        text::is_before(left.segment_id.as_str(), right.segment_id.as_str())
    }
}

/// Places as plain numbers.
pub open spec fn places(order: Seq<usize>) -> Seq<int> {
    order.map_values(|place: usize| place as int)
}

/// Lists the places of entries in the order of their timeline.
pub fn timeline_order(entries: &Vec<HistoryEntry>) -> (order: Vec<usize>)
    ensures
        is_timeline(entries_of(entries@), places(order@)),
{
    let mut order: Vec<usize> = Vec::new();
    let mut i: usize = 0;
    let ghost all = entries_of(entries@);
    while i < entries.len()
        invariant
            all == entries_of(entries@),
            i <= entries@.len(),
            order@.len() == i,
            forall|k: int| 0 <= k < order@.len() ==> (#[trigger] order@[k]) < i,
            forall|j: int, k: int|
                0 <= j < k < order@.len() ==> listed_before(
                    all,
                    (#[trigger] order@[j]) as int,
                    (#[trigger] order@[k]) as int,
                ),
        decreases entries@.len() - i,
    {
        let mut at: usize = 0;
        while at < order.len() && !is_earlier(&entries[i], &entries[order[at]])
            invariant
                all == entries_of(entries@),
                i < entries@.len(),
                order@.len() == i,
                at <= order@.len(),
                forall|k: int| 0 <= k < order@.len() ==> (#[trigger] order@[k]) < i,
                forall|k: int|
                    0 <= k < at ==> !earlier(all[i as int], all[(#[trigger] order@[k]) as int]),
            decreases order@.len() - at,
        {
            at += 1;
        }
        let ghost before = order@;
        order.insert(at, i);
        proof {
            assert forall|j: int, k: int| 0 <= j < k < order@.len() implies listed_before(
                all,
                (#[trigger] order@[j]) as int,
                (#[trigger] order@[k]) as int,
            ) by {
                let left = if j < at {
                    before[j]
                } else if j == at {
                    i
                } else {
                    before[j - 1]
                };
                let right = if k < at {
                    before[k]
                } else if k == at {
                    i
                } else {
                    before[k - 1]
                };
                assert(order@[j] == left);
                assert(order@[k] == right);
                if j != at && k != at {
                    let from = if j < at {
                        j
                    } else {
                        j - 1
                    };
                    let to = if k < at {
                        k
                    } else {
                        k - 1
                    };
                    assert(listed_before(all, before[from] as int, before[to] as int));
                } else if j == at {
                    lemma_earlier(
                        all[i as int],
                        all[before[at as int] as int],
                        all[before[k - 1] as int],
                    );
                    if k - 1 > at {
                        assert(listed_before(
                            all,
                            before[at as int] as int,
                            before[k - 1] as int,
                        ));
                        lemma_earlier(
                            all[before[at as int] as int],
                            all[before[k - 1] as int],
                            all[i as int],
                        );
                    }
                } else {
                    assert(before[j] < i);
                }
            }
        }
        i += 1;
    }
    proof {
        let listed = places(order@);
        assert forall|k: int| 0 <= k < listed.len() implies 0 <= #[trigger] listed[k]
            < all.len() by {
            assert(order@[k] < i);
        }
        assert forall|j: int, k: int| 0 <= j < k < listed.len() implies listed_before(
            all,
            #[trigger] listed[j],
            #[trigger] listed[k],
        ) by {
            assert(listed_before(all, order@[j] as int, order@[k] as int));
        }
    }
    order
}

proof fn lemma_timeline_lists_all(entries: Seq<EntryView>, order: Seq<int>, place: int)
    requires
        is_timeline(entries, order),
        0 <= place < entries.len(),
    ensures
        order.contains(place),
{
    assert(order.no_duplicates()) by {
        assert forall|i: int, j: int|
            0 <= i < order.len() && 0 <= j < order.len() && i != j implies order[i] != order[j] by {
            lemma_earlier(entries[order[i]], entries[order[i]], entries[order[i]]);
            if i < j {
                assert(listed_before(entries, order[i], order[j]));
            } else {
                assert(listed_before(entries, order[j], order[i]));
            }
        }
    }
    order.unique_seq_to_set();
    let range = vstd::set_lib::set_int_range(0, entries.len() as int);
    vstd::set_lib::lemma_int_range(0, entries.len() as int);
    assert(order.to_set().subset_of(range)) by {
        assert forall|x: int| order.to_set().contains(x) implies range.contains(x) by {
            let i = choose|i: int| 0 <= i < order.len() && order[i] == x;
            assert(0 <= order[i] < entries.len());
        }
    }
    vstd::set_lib::lemma_subset_equality(order.to_set(), range);
    assert(range.contains(place));
    assert(order.to_set().contains(place));
}

proof fn lemma_timelines_agree(entries: Seq<EntryView>, left: Seq<int>, right: Seq<int>, count: int)
    requires
        is_timeline(entries, left),
        is_timeline(entries, right),
        0 <= count <= entries.len(),
    ensures
        forall|k: int| 0 <= k < count ==> #[trigger] left[k] == right[k],
    decreases count,
{
    if count > 0 {
        let k = count - 1;
        lemma_timelines_agree(entries, left, right, k);
        let x = left[k];
        let y = right[k];
        if x != y {
            lemma_timeline_lists_all(entries, right, x);
            lemma_timeline_lists_all(entries, left, y);
            let p = choose|p: int| 0 <= p < right.len() && right[p] == x;
            let q = choose|q: int| 0 <= q < left.len() && left[q] == y;
            lemma_earlier(entries[x], entries[y], entries[x]);
            lemma_earlier(entries[x], entries[x], entries[x]);
            if p < k {
                assert(left[p] == right[p]);
                assert(listed_before(entries, left[p], left[k]));
            } else {
                assert(listed_before(entries, right[k], right[p]));
                if q < k {
                    assert(left[q] == right[q]);
                    lemma_earlier(entries[y], entries[y], entries[y]);
                    assert(listed_before(entries, right[q], right[k]));
                } else {
                    assert(listed_before(entries, left[k], left[q]));
                }
            }
        }
    }
}

/// Entries have one timeline.
pub proof fn law_timeline_is_unique(entries: Seq<EntryView>, left: Seq<int>, right: Seq<int>)
    requires
        is_timeline(entries, left),
        is_timeline(entries, right),
    ensures
        left == right,
{
    lemma_timelines_agree(entries, left, right, entries.len() as int);
    assert(left =~= right);
}

/// Every entry stands in the timeline.
pub proof fn law_timeline_lists_every_entry(entries: Seq<EntryView>, order: Seq<int>, place: int)
    requires
        is_timeline(entries, order),
        0 <= place < entries.len(),
    ensures
        order.contains(place),
{
    lemma_timeline_lists_all(entries, order, place);
}

/// The line of an entry in a timeline.
pub open spec fn timeline_line(entry: EntryView) -> Seq<char> {
    "- "@ + text::decimal(entry.start_ms as nat) + "-"@ + text::decimal(entry.end_ms as nat)
        + " ms | "@ + entry.segment_id + " | rev "@ + text::decimal(entry.revision as nat)
        + " | "@ + escaped(one_line(entry.text))
}

/// The title of a note: the one that was given, or else the one that was suggested.
pub open spec fn note_title(given: Option<Seq<char>>, suggested: Option<Seq<char>>) -> Seq<char> {
    match given {
        Some(title) => title,
        None => match suggested {
            Some(title) => title,
            None => "OpenASR Live Session"@,
        },
    }
}

/// What the history of a session holds.
pub struct SessionHistory {
    pub suggested_title: Option<String>,
    pub lines: Vec<String>,
    pub entries: Vec<HistoryEntry>,
    pub revision_count: usize,
}

/// The lines before the transcript.
pub open spec fn head_lines(
    note: LiveMarkdownNoteOptions,
    history: SessionHistory,
) -> Seq<Seq<char>> {
    seq![
        "# "@ + escaped(
            one_line(
                note_title(
                    text::opt_string(note.title),
                    text::opt_string(history.suggested_title),
                ),
            ),
        ),
        seq![],
        "- created_at: "@ + note.created_at@,
        "- source: "@ + note.source_label@,
        "- model: "@ + note.model_id@,
        "- backend: "@ + note.backend@,
        "- finalized_lines: "@ + text::decimal(history.entries@.len()),
        "- revisions: "@ + text::decimal(history.revision_count as nat),
        seq![],
        "## Transcript"@,
        seq![],
    ]
}

/// The lines of the transcript.
pub open spec fn transcript_lines(lines: Seq<Seq<char>>) -> Seq<Seq<char>> {
    if lines.len() == 0 {
        seq!["_No finalized transcript lines._"@]
    } else {
        lines.map_values(|line: Seq<char>| "- "@ + escaped(line))
    }
}

/// The lines of the timeline.
pub open spec fn timeline_lines(entries: Seq<EntryView>, order: Seq<int>) -> Seq<Seq<char>> {
    if order.len() == 0 {
        seq!["_No finalized/revised timeline entries._"@]
    } else {
        order.map_values(|place: int| timeline_line(entries[place]))
    }
}

/// The note of a session, with its timeline in a given order.
pub open spec fn note_text(
    note: LiveMarkdownNoteOptions,
    history: SessionHistory,
    order: Seq<int>,
) -> Seq<char> {
    text::joined(
        head_lines(note, history) + transcript_lines(text::texts(history.lines@)) + seq![
            seq![],
            "## Timeline"@,
            seq![],
        ] + timeline_lines(entries_of(history.entries@), order),
        "\n"@,
    ) + "\n"@
}

fn labelled(label: &str, value: &str) -> (out: String)
    ensures
        out@ == label@ + value@,
{
    let mut out = label.to_owned();
    out.append(value);
    out
}

fn render_head(note: &LiveMarkdownNoteOptions, history: &SessionHistory) -> (lines: Vec<String>)
    ensures
        text::texts(lines@) == head_lines(*note, *history),
{
    let title = match &note.title {
        Some(title) => title.as_str().to_owned(),
        None => match &history.suggested_title {
            Some(title) => title.as_str().to_owned(),
            None => "OpenASR Live Session".to_owned(),
        },
    };
    let title = escape_markdown_text(normalize_markdown_line(title.as_str()).as_str());
    let mut lines: Vec<String> = Vec::new();
    lines.push(labelled("# ", title.as_str()));
    lines.push(String::new());
    lines.push(labelled("- created_at: ", note.created_at.as_str()));
    lines.push(labelled("- source: ", note.source_label.as_str()));
    lines.push(labelled("- model: ", note.model_id.as_str()));
    lines.push(labelled("- backend: ", note.backend.as_str()));
    lines.push(
        labelled(
            "- finalized_lines: ",
            text::decimal_text(history.entries.len() as u64).as_str(),
        ),
    );
    lines.push(
        labelled("- revisions: ", text::decimal_text(history.revision_count as u64).as_str()),
    );
    lines.push(String::new());
    lines.push("## Transcript".to_owned());
    lines.push(String::new());
    assert(text::texts(lines@) =~= head_lines(*note, *history));
    lines
}

fn push_transcript(lines: &mut Vec<String>, transcript: &Vec<String>)
    ensures
        text::texts(final(lines)@) == text::texts(old(lines)@) + transcript_lines(
            text::texts(transcript@),
        ),
{
    if transcript.len() == 0 {
        lines.push("_No finalized transcript lines._".to_owned());
        assert(text::texts(lines@) =~= text::texts(old(lines)@) + transcript_lines(
            text::texts(transcript@),
        ));
        return ;
    }
    let mut i: usize = 0;
    let ghost rendered = transcript_lines(text::texts(transcript@));
    while i < transcript.len()
        invariant
            rendered == transcript_lines(text::texts(transcript@)),
            transcript@.len() > 0,
            i <= transcript@.len(),
            text::texts(lines@) == text::texts(old(lines)@) + rendered.take(i as int),
        decreases transcript@.len() - i,
    {
        let ghost before = text::texts(lines@);
        lines.push(labelled("- ", escape_markdown_text(transcript[i].as_str()).as_str()));
        assert(text::texts(lines@) =~= before.push(rendered[i as int]));
        assert(rendered.take(i + 1) =~= rendered.take(i as int).push(rendered[i as int]));
        i += 1;
    }
    assert(rendered.take(i as int) =~= rendered);
}

fn render_entry(entry: &HistoryEntry) -> (line: String)
    ensures
        line@ == timeline_line(entry@),
{
    let shown_text = escape_markdown_text(normalize_markdown_line(entry.text.as_str()).as_str());
    let mut line = labelled("- ", text::decimal_text(entry.start_ms).as_str());
    line.append("-");
    line.append(text::decimal_text(entry.end_ms).as_str());
    line.append(" ms | ");
    line.append(entry.segment_id.as_str());
    line.append(" | rev ");
    line.append(text::decimal_text(entry.revision).as_str());
    line.append(" | ");
    line.append(shown_text.as_str());
    line
}

fn push_timeline(lines: &mut Vec<String>, entries: &Vec<HistoryEntry>, order: &Vec<usize>)
    requires
        is_timeline(entries_of(entries@), places(order@)),
    ensures
        text::texts(final(lines)@) == text::texts(old(lines)@) + timeline_lines(
            entries_of(entries@),
            places(order@),
        ),
{
    if order.len() == 0 {
        lines.push("_No finalized/revised timeline entries._".to_owned());
        assert(text::texts(lines@) =~= text::texts(old(lines)@) + timeline_lines(
            entries_of(entries@),
            places(order@),
        ));
        return ;
    }
    let mut i: usize = 0;
    let ghost rendered = timeline_lines(entries_of(entries@), places(order@));
    while i < order.len()
        invariant
            is_timeline(entries_of(entries@), places(order@)),
            rendered == timeline_lines(entries_of(entries@), places(order@)),
            order@.len() > 0,
            i <= order@.len(),
            text::texts(lines@) == text::texts(old(lines)@) + rendered.take(i as int),
        decreases order@.len() - i,
    {
        let ghost before = text::texts(lines@);
        assert(0 <= places(order@)[i as int] < entries@.len());
        lines.push(render_entry(&entries[order[i]]));
        assert(text::texts(lines@) =~= before.push(rendered[i as int]));
        assert(rendered.take(i + 1) =~= rendered.take(i as int).push(rendered[i as int]));
        i += 1;
    }
    assert(rendered.take(i as int) =~= rendered);
}

/// Renders the note of a session.
pub fn render_markdown_note(note: &LiveMarkdownNoteOptions, history: &SessionHistory) -> (out:
    String)
    ensures
        exists|order: Seq<int>|
            is_timeline(entries_of(history.entries@), order) && out@ == note_text(
                *note,
                *history,
                order,
            ),
{
    let order = timeline_order(&history.entries);
    let mut lines = render_head(note, history);
    push_transcript(&mut lines, &history.lines);
    let ghost before = text::texts(lines@);
    lines.push(String::new());
    lines.push("## Timeline".to_owned());
    lines.push(String::new());
    assert(text::texts(lines@) =~= before + seq![seq![], "## Timeline"@, seq![]]);
    push_timeline(&mut lines, &history.entries, &order);
    let mut out = text::join_texts(&lines, "\n");
    out.append("\n");
    assert(out@ == note_text(*note, *history, places(order@)));
    out
}

/// Escaping goes character by character: a backslash is put before each of Markdown's
/// characters, and nothing else is changed.
pub proof fn law_escaping_goes_by_characters(left: Seq<char>, right: Seq<char>, c: char)
    ensures
        escaped(left + right) == escaped(left) + escaped(right),
        escaped(seq![]) == Seq::<char>::empty(),
        escaped(seq![c]) == if seq![
            '\\', '`', '*', '_', '{', '}', '[', ']', '(', ')', '#', '+', '-', '!', '|', '>',
        ].contains(c) {
            seq!['\\', c]
        } else {
            seq![c]
        },
    decreases right.len(),
{
    let markup = seq![
        '\\', '`', '*', '_', '{', '}', '[', ']', '(', ')', '#', '+', '-', '!', '|', '>',
    ];
    assert(seq![c].drop_last() =~= seq![]);
    reveal_with_fuel(escaped, 2);
    assert(is_markup(c) ==> markup.contains(c)) by {
        assert(markup[0] == '\\' && markup[1] == '`' && markup[2] == '*' && markup[3] == '_');
        assert(markup[4] == '{' && markup[5] == '}' && markup[6] == '[' && markup[7] == ']');
        assert(markup[8] == '(' && markup[9] == ')' && markup[10] == '#' && markup[11] == '+');
        assert(markup[12] == '-' && markup[13] == '!' && markup[14] == '|' && markup[15] == '>');
    }
    assert(escaped(seq![c]) =~= if markup.contains(c) {
        seq!['\\', c]
    } else {
        seq![c]
    });
    if right.len() == 0 {
        assert(left + right =~= left);
        assert(escaped(left) + escaped(right) =~= escaped(left));
    } else {
        law_escaping_goes_by_characters(left, right.drop_last(), c);
        assert((left + right).drop_last() =~= left + right.drop_last());
        assert(escaped(left + right) =~= escaped(left) + escaped(right));
    }
}

/// The transcript of a note has a line for each line of the history, in their order,
/// and each shows that line after a dash.
pub proof fn law_transcript_shows_every_line(lines: Seq<Seq<char>>, at: int)
    requires
        0 <= at < lines.len(),
    ensures
        transcript_lines(lines).len() == lines.len(),
        transcript_lines(lines)[at].len() >= 2,
        transcript_lines(lines)[at][0] == '-',
        transcript_lines(lines)[at][1] == ' ',
        shown(transcript_lines(lines)[at].skip(2)) == lines[at],
        transcript_lines(lines)[at].skip(2) == escaped(lines[at]),
{
    reveal_strlit("- ");
    law_escaping_can_be_undone(lines[at]);
    assert(transcript_lines(lines)[at].skip(2) =~= escaped(lines[at]));
}

/// The timeline of a note has a line for each entry of the history, in the order of the
/// timeline; each gives the times, the segment, the revision and the text of its entry.
pub proof fn law_timeline_shows_every_entry(entries: Seq<EntryView>, order: Seq<int>, at: int)
    requires
        is_timeline(entries, order),
        0 <= at < order.len(),
    ensures
        timeline_lines(entries, order).len() == entries.len(),
        ({
            let entry = entries[order[at]];
            timeline_lines(entries, order)[at] == "- "@ + text::decimal(entry.start_ms as nat)
                + "-"@ + text::decimal(entry.end_ms as nat) + " ms | "@ + entry.segment_id
                + " | rev "@ + text::decimal(entry.revision as nat) + " | "@ + escaped(
                one_line(entry.text),
            )
        }),
{
}

/// A note is made of these lines and no others: its title, what it says of the session,
/// the transcript and the timeline, each line ended by a line break. The title is the
/// one that was given, or else the suggested one, or else a fixed one.
pub proof fn law_a_note_holds_the_whole_session(
    note: LiveMarkdownNoteOptions,
    history: SessionHistory,
    order: Seq<int>,
    lines: Seq<Seq<char>>,
)
    requires
        is_timeline(entries_of(history.entries@), order),
        ({
            let said = if history.lines@.len() == 0 {
                1
            } else {
                history.lines@.len() as int
            };
            let listed = if history.entries@.len() == 0 {
                1
            } else {
                history.entries@.len() as int
            };
            let title = if note.title is Some {
                note.title->Some_0@
            } else if history.suggested_title is Some {
                history.suggested_title->Some_0@
            } else {
                "OpenASR Live Session"@
            };
            &&& lines.len() == 11 + said + 3 + listed
            &&& lines[0] == "# "@ + escaped(one_line(title))
            &&& lines[1].len() == 0
            &&& lines[2] == "- created_at: "@ + note.created_at@
            &&& lines[3] == "- source: "@ + note.source_label@
            &&& lines[4] == "- model: "@ + note.model_id@
            &&& lines[5] == "- backend: "@ + note.backend@
            &&& lines[6] == "- finalized_lines: "@ + text::decimal(history.entries@.len())
            &&& lines[7] == "- revisions: "@ + text::decimal(history.revision_count as nat)
            &&& lines[8].len() == 0
            &&& lines[9] == "## Transcript"@
            &&& lines[10].len() == 0
            &&& history.lines@.len() == 0 ==> lines[11] == "_No finalized transcript lines._"@
            &&& history.lines@.len() > 0 ==> forall|i: int|
                11 <= i < 11 + said ==> #[trigger] lines[i] == "- "@ + escaped(
                    history.lines@[i - 11]@,
                )
            &&& lines[11 + said].len() == 0
            &&& lines[12 + said] == "## Timeline"@
            &&& lines[13 + said].len() == 0
            &&& history.entries@.len() == 0 ==> lines[14 + said]
                == "_No finalized/revised timeline entries._"@
            &&& history.entries@.len() > 0 ==> forall|i: int|
                14 + said <= i < lines.len() ==> #[trigger] lines[i] == timeline_lines(
                    entries_of(history.entries@),
                    order,
                )[i - 14 - said]
        }),
    ensures
        note_text(note, history, order) == text::joined(lines, "\n"@) + "\n"@,
{
    let said = if history.lines@.len() == 0 {
        1
    } else {
        history.lines@.len() as int
    };
    let entries = entries_of(history.entries@);
    let all = head_lines(note, history) + transcript_lines(text::texts(history.lines@)) + seq![
        seq![],
        "## Timeline"@,
        seq![],
    ] + timeline_lines(entries, order);
    let head = head_lines(note, history);
    assert(head.len() == 11);
    assert(lines.len() == all.len());
    assert forall|i: int| 0 <= i < lines.len() implies lines[i] == all[i] by {
        if i < 11 {
            assert(all[i] == head[i]);
            assert(lines[1] =~= seq![]);
            assert(lines[8] =~= seq![]);
            assert(lines[10] =~= seq![]);
        } else if i < 11 + said {
            if history.lines@.len() > 0 {
                let k = i - 11;
                assert(text::texts(history.lines@)[k] == history.lines@[k]@);
            }
        } else if i < 14 + said {
            assert(lines[11 + said] =~= seq![]);
            assert(lines[13 + said] =~= seq![]);
        } else if history.entries@.len() > 0 {
            assert(lines[i] == timeline_lines(entries, order)[i - 14 - said]);
        }
    }
    assert(lines =~= all);
}

/// A broadcast shows the last lines, as many as it may hold, each ended by a line
/// break: with room for all of them every line, without room nothing.
pub proof fn law_broadcast_shows_the_last_lines(lines: Seq<Seq<char>>, max_lines: nat)
    ensures
        lines.len() == 0 || max_lines == 0 ==> obs_text(lines, max_lines).len() == 0,
        0 < lines.len() <= max_lines ==> obs_text(lines, max_lines) == text::joined(lines, "\n"@)
            + "\n"@,
        0 < max_lines < lines.len() ==> obs_text(lines, max_lines) == text::joined(
            lines.subrange(lines.len() - max_lines, lines.len() as int),
            "\n"@,
        ) + "\n"@,
        lines.len() > max_lines ==> obs_text(lines, max_lines) == obs_text(
            lines.drop_first(),
            max_lines,
        ),
{
    if lines.len() <= max_lines {
        assert(lines.skip(0) =~= lines);
    } else {
        let from = lines.len() - max_lines;
        assert(lines.skip(from) =~= lines.subrange(from, lines.len() as int));
        assert(lines.drop_first().skip(from - 1) =~= lines.skip(from));
    }
}

/// A note that is appended to nothing stands alone; between it and what stood in the
/// file is one blank line.
pub proof fn law_appended_note_has_one_blank_line_before(existing: Seq<char>, rendered: Seq<char>)
    ensures
        existing.len() == 0 ==> appended(existing, rendered) == rendered,
        existing.len() > 0 && existing.last() == '\n' ==> appended(existing, rendered) == existing
            + seq!['\n'] + rendered,
        existing.len() > 0 && existing.last() != '\n' ==> appended(existing, rendered) == existing
            + seq!['\n', '\n'] + rendered,
{
    reveal_strlit("\n");
    reveal_strlit("\n\n");
    assert("\n"@ =~= seq!['\n']);
    assert("\n\n"@ =~= seq!['\n', '\n']);
}

/// Which of two entries is listed first: the one that starts first, else the one that
/// ends first, else the one whose event came first, one without an event last, else by
/// the names of the utterance and of the segment, and the one entered first where all of
/// these agree.
pub proof fn law_timeline_goes_by_time(entries: Seq<EntryView>, left: int, right: int)
    requires
        0 <= left < entries.len(),
        0 <= right < entries.len(),
    ensures
        ({
            let a = entries[left];
            let b = entries[right];
            &&& a.start_ms < b.start_ms ==> listed_before(entries, left, right)
                && !listed_before(entries, right, left)
            &&& a.start_ms == b.start_ms && a.end_ms < b.end_ms ==> listed_before(
                entries,
                left,
                right,
            ) && !listed_before(entries, right, left)
            &&& a.start_ms == b.start_ms && a.end_ms == b.end_ms && a.source_seq is Some
                && a.source_seq->Some_0 < u64::MAX && (b.source_seq is Some ==> a.source_seq->Some_0
                < b.source_seq->Some_0) ==> listed_before(
                entries,
                left,
                right,
            ) && !listed_before(entries, right, left)
            &&& a.start_ms == b.start_ms && a.end_ms == b.end_ms && a.source_seq == b.source_seq
                && a.utterance_id != b.utterance_id ==> listed_before(entries, left, right)
                == text::stands_before(a.utterance_id, b.utterance_id)
            &&& a.start_ms == b.start_ms && a.end_ms == b.end_ms && a.source_seq == b.source_seq
                && a.utterance_id == b.utterance_id && a.segment_id != b.segment_id
                ==> listed_before(entries, left, right) == text::stands_before(
                a.segment_id,
                b.segment_id,
            )
            &&& a.start_ms == b.start_ms && a.end_ms == b.end_ms && a.source_seq == b.source_seq
                && a.utterance_id == b.utterance_id && a.segment_id == b.segment_id
                ==> listed_before(entries, left, right) == (left < right)
        }),
{
    let a = entries[left];
    let b = entries[right];
    lemma_earlier(a, b, a);
    lemma_earlier(a, a, b);
    text::lemma_text_order(a.utterance_id, b.utterance_id, a.utterance_id);
    text::lemma_text_order(a.segment_id, b.segment_id, a.segment_id);
}

} // verus!
