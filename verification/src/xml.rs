//! The little XML that `/serverinfo` calls for: finding an element and unescaping its text.

use vstd::prelude::*;

use crate::text;

verus! {

/// `<tag>`.
pub open spec fn opening(tag: Seq<char>) -> Seq<char> {
    seq!['<'] + tag + seq!['>']
}

/// `</tag>`.
pub open spec fn closing(tag: Seq<char>) -> Seq<char> {
    seq!['<', '/'] + tag + seq!['>']
}

/// `text` with the five XML entities replaced by what they stand for, `&amp;` last.
pub open spec fn unescaped(text: Seq<char>) -> Seq<char> {
    let text = text::replaced(text, "&lt;"@, '<');
    let text = text::replaced(text, "&gt;"@, '>');
    let text = text::replaced(text, "&quot;"@, '"');
    let text = text::replaced(text, "&apos;"@, '\'');
    text::replaced(text, "&amp;"@, '&')
}

/// The unescaped text between the first `<tag>` in `body` and the first `</tag>` after it.
pub open spec fn tag_text(body: Seq<char>, tag: Seq<char>) -> Option<Seq<char>> {
    match text::position(body, opening(tag), 0) {
        Some(at) => {
            let start = at + opening(tag).len();
            match text::position(body, closing(tag), start) {
                Some(end) => Some(unescaped(body.subrange(start, end))),
                None => None,
            }
        },
        None => None,
    }
}

/// Undoes the escaping that moonshine applies to text it embeds in `/serverinfo`.
///
/// `&amp;` is substituted last so that an escaped entity in the original text (`&amp;lt;` on
/// the wire) survives as literal `&lt;` rather than being unescaped twice.
pub fn unescape_xml(input: &str) -> (text: String)
    ensures
        text@ == unescaped(input@),
{
    proof {
        reveal_strlit("&lt;");
        reveal_strlit("&gt;");
        reveal_strlit("&quot;");
        reveal_strlit("&apos;");
        reveal_strlit("&amp;");
    }
    let text = text::chars_of(input);
    let text = text::replace(&text, &text::chars_of("&lt;"), '<');
    let text = text::replace(&text, &text::chars_of("&gt;"), '>');
    let text = text::replace(&text, &text::chars_of("&quot;"), '"');
    let text = text::replace(&text, &text::chars_of("&apos;"), '\'');
    let text = text::replace(&text, &text::chars_of("&amp;"), '&');
    text::string_of(&text)
}

/// The unescaped text content of the first `<tag>…</tag>` in `body`.
pub fn extract_tag(body: &str, tag: &str) -> (content: Option<String>)
    ensures
        match content {
            Some(text) => tag_text(body@, tag@) == Some(text@),
            None => tag_text(body@, tag@) is None,
        },
{
    let mut open = String::new();
    open.append("<");
    open.append(tag);
    open.append(">");
    let mut close = String::new();
    close.append("</");
    close.append(tag);
    close.append(">");
    proof {
        reveal_strlit("<");
        reveal_strlit("</");
        reveal_strlit(">");
        assert(open@ =~= opening(tag@));
        assert(close@ =~= closing(tag@));
    }
    let chars = text::chars_of(body);
    let open = text::chars_of(open.as_str());
    let close = text::chars_of(close.as_str());
    let start: usize = match text::find(&chars, &open, 0) {
        Some(at) => at + open.len(),
        None => {
            return None;
        },
    };
    match text::find(&chars, &close, start) {
        Some(end) => Some(unescape_xml(body.substring_char(start, end))),
        None => None,
    }
}

// ---------------------------------------------------------------------------
// Escaping
// ---------------------------------------------------------------------------

/// How the character `c` is written in escaped text.
pub open spec fn escaped_char(c: char) -> Seq<char> {
    match c {
        '<' => "&lt;"@,
        '>' => "&gt;"@,
        '"' => "&quot;"@,
        '\'' => "&apos;"@,
        '&' => "&amp;"@,
        _ => seq![c],
    }
}

/// `text` as moonshine writes it into `/serverinfo`: with the five characters that have a
/// meaning in XML written as entities.
pub open spec fn escaped(text: Seq<char>) -> Seq<char>
    decreases text.len(),
{
    if text.len() == 0 {
        Seq::empty()
    } else {
        escaped_char(text[0]) + escaped(text.skip(1))
    }
}

/// The entity that is replaced at each stage of unescaping, and what it is replaced by.
spec fn entity(stage: nat) -> (Seq<char>, char) {
    if stage == 0 {
        ("&lt;"@, '<')
    } else if stage == 1 {
        ("&gt;"@, '>')
    } else if stage == 2 {
        ("&quot;"@, '"')
    } else if stage == 3 {
        ("&apos;"@, '\'')
    } else {
        ("&amp;"@, '&')
    }
}

/// How `c` stands in escaped text once the first `stage` entities have been replaced.
spec fn half_escaped_char(c: char, stage: nat) -> Seq<char> {
    if (stage > 0 && c == '<') || (stage > 1 && c == '>') || (stage > 2 && c == '"') || (stage > 3
        && c == '\'') || (stage > 4 && c == '&') {
        seq![c]
    } else {
        escaped_char(c)
    }
}

/// Escaped text once the first `stage` entities have been replaced.
spec fn half_escaped(text: Seq<char>, stage: nat) -> Seq<char>
    decreases text.len(),
{
    if text.len() == 0 {
        Seq::empty()
    } else {
        half_escaped_char(text[0], stage) + half_escaped(text.skip(1), stage)
    }
}

proof fn reveal_entities()
    ensures
        "&lt;"@ == seq!['&', 'l', 't', ';'],
        "&gt;"@ == seq!['&', 'g', 't', ';'],
        "&quot;"@ == seq!['&', 'q', 'u', 'o', 't', ';'],
        "&apos;"@ == seq!['&', 'a', 'p', 'o', 's', ';'],
        "&amp;"@ == seq!['&', 'a', 'm', 'p', ';'],
{
    reveal_strlit("&lt;");
    reveal_strlit("&gt;");
    reveal_strlit("&quot;");
    reveal_strlit("&apos;");
    reveal_strlit("&amp;");
    assert("&lt;"@ =~= seq!['&', 'l', 't', ';']);
    assert("&gt;"@ =~= seq!['&', 'g', 't', ';']);
    assert("&quot;"@ =~= seq!['&', 'q', 'u', 'o', 't', ';']);
    assert("&apos;"@ =~= seq!['&', 'a', 'p', 'o', 's', ';']);
    assert("&amp;"@ =~= seq!['&', 'a', 'm', 'p', ';']);
}

/// Each stage of unescaping replaces its own entity and touches nothing else.
proof fn lemma_stage(text: Seq<char>, stage: nat)
    requires
        stage < 5,
    ensures
        text::replaced(half_escaped(text, stage), entity(stage).0, entity(stage).1)
            == half_escaped(text, stage + 1),
    decreases text.len(),
{
    reveal_entities();
    let pattern = entity(stage).0;
    let with = entity(stage).1;
    if text.len() > 0 {
        lemma_stage(text.skip(1), stage);
        let head = half_escaped_char(text[0], stage);
        let rest = half_escaped(text.skip(1), stage);
        let whole = head + rest;
        if text[0] == with {
            assert(head == pattern);
            assert(whole.subrange(0, pattern.len() as int) == pattern);
            assert(whole.skip(pattern.len() as int) == rest);
        } else {
            assert forall|at: int| 0 <= at < head.len() implies !#[trigger] text::is_at(
                whole,
                pattern,
                at,
            ) by {
                if text::is_at(whole, pattern, at) {
                    let window = whole.subrange(at, at + pattern.len());
                    assert(window[0] == whole[at]);
                    assert(window[1] == whole[at + 1]);
                    assert(window[2] == whole[at + 2]);
                    assert(whole[at] == head[at]);
                }
            }
            text::lemma_replaced_passes(whole, pattern, with, head.len() as int);
            assert(whole.take(head.len() as int) == head);
            assert(whole.skip(head.len() as int) == rest);
        }
    }
}

proof fn lemma_all_stages(text: Seq<char>)
    ensures
        half_escaped(text, 0) == escaped(text),
        half_escaped(text, 5) == text,
    decreases text.len(),
{
    if text.len() > 0 {
        lemma_all_stages(text.skip(1));
        assert(seq![text[0]] + text.skip(1) == text);
    }
}

/// Unescaping undoes escaping: whatever text moonshine embeds is read back as it was.
pub proof fn law_unescaping_undoes_escaping(text: Seq<char>)
    ensures
        unescaped(escaped(text)) == text,
{
    lemma_all_stages(text);
    lemma_stage(text, 0);
    lemma_stage(text, 1);
    lemma_stage(text, 2);
    lemma_stage(text, 3);
    lemma_stage(text, 4);
}

proof fn lemma_plain_stage(text: Seq<char>, stage: nat)
    requires
        !text.contains('&'),
    ensures
        text::replaced(text, entity(stage).0, entity(stage).1) == text,
{
    reveal_entities();
    let pattern = entity(stage).0;
    assert forall|at: int| 0 <= at < text.len() implies !#[trigger] text::is_at(
        text,
        pattern,
        at,
    ) by {
        if text::is_at(text, pattern, at) {
            assert(text.subrange(at, at + pattern.len())[0] == text[at]);
            assert(text.contains(text[at]));
        }
    }
    text::lemma_replaced_passes(text, pattern, entity(stage).1, text.len() as int);
    assert(text.skip(text.len() as int) == Seq::<char>::empty());
    assert(text.take(text.len() as int) + Seq::<char>::empty() == text);
}

/// Text that holds no `&` holds no entity, and is read as it stands.
pub proof fn law_plain_text_is_kept(text: Seq<char>)
    requires
        !text.contains('&'),
    ensures
        unescaped(text) == text,
{
    lemma_plain_stage(text, 0);
    lemma_plain_stage(text, 1);
    lemma_plain_stage(text, 2);
    lemma_plain_stage(text, 3);
    lemma_plain_stage(text, 4);
}

/// What becomes of the entity of stage `own` once the first `stage` entities have been replaced.
spec fn half_read(own: nat, stage: nat) -> Seq<char> {
    if stage <= own {
        entity(own).0
    } else {
        seq![entity(own).1]
    }
}

/// No entity reaches into another one, or over what another one stands for, so that each stage
/// of unescaping treats by themselves an entity and the texts on either side of it.
proof fn lemma_stage_splits(front: Seq<char>, own: nat, rest: Seq<char>, stage: nat)
    requires
        own < 5,
        stage < 5,
    ensures
        text::replaced(front + half_read(own, stage) + rest, entity(stage).0, entity(stage).1)
            == text::replaced(front, entity(stage).0, entity(stage).1) + half_read(own, stage + 1)
            + text::replaced(rest, entity(stage).0, entity(stage).1),
{
    let middle = half_read(own, stage);
    reveal_entities();
    let (pattern, with) = entity(stage);
    let whole = front + (middle + rest);
    assert(front + middle + rest == whole);
    assert forall|at: int|
        0 <= at < front.len() < at + pattern.len() implies !#[trigger] text::is_at(
        whole,
        pattern,
        at,
    ) by {
        if text::is_at(whole, pattern, at) {
            let k = front.len() - at;
            assert(whole.subrange(at, at + pattern.len())[k] == whole[at + k]);
            assert(whole[at + k] == middle[0]);
        }
    }
    text::lemma_replaced_splits(front, middle + rest, pattern, with);
    assert forall|at: int|
        0 <= at < middle.len() < at + pattern.len() implies !#[trigger] text::is_at(
        middle + rest,
        pattern,
        at,
    ) by {
        if text::is_at(middle + rest, pattern, at) {
            let window = (middle + rest).subrange(at, at + pattern.len());
            assert(window[0] == middle[at]);
            if at == 0 && middle.len() > 1 {
                let last = middle.len() - 1;
                assert(window[last] == middle[last]);
            }
        }
    }
    text::lemma_replaced_splits(middle, rest, pattern, with);
    if own == stage {
        assert(middle.subrange(0, pattern.len() as int) == pattern);
        assert(middle.skip(pattern.len() as int) == Seq::<char>::empty());
        assert(text::replaced(Seq::<char>::empty(), pattern, with) == Seq::<char>::empty());
        assert(seq![with] + Seq::<char>::empty() == seq![with]);
    } else {
        assert forall|at: int| 0 <= at < middle.len() implies !#[trigger] text::is_at(
            middle,
            pattern,
            at,
        ) by {
            if text::is_at(middle, pattern, at) {
                let window = middle.subrange(at, at + pattern.len());
                assert(window[0] == middle[at]);
                assert(window.last() == middle[at + pattern.len() - 1]);
                assert(window[1] == middle[at + 1]);
            }
        }
        text::law_text_without_the_pattern_is_kept(middle, pattern, with);
    }
    assert(text::replaced(middle, pattern, with) == half_read(own, stage + 1));
    assert(text::replaced(front, pattern, with) + (half_read(own, stage + 1) + text::replaced(
        rest,
        pattern,
        with,
    )) == text::replaced(front, pattern, with) + half_read(own, stage + 1) + text::replaced(
        rest,
        pattern,
        with,
    ));
}

/// Wherever an entity stands, it is read for the character that it stands for, and what stands
/// in front of it and behind it is read as if it stood alone.
pub proof fn law_an_entity_is_read_wherever_it_stands(
    front: Seq<char>,
    entity: Seq<char>,
    c: char,
    rest: Seq<char>,
)
    requires
        ({
            ||| entity == "&lt;"@ && c == '<'
            ||| entity == "&gt;"@ && c == '>'
            ||| entity == "&quot;"@ && c == '"'
            ||| entity == "&apos;"@ && c == '\''
            ||| entity == "&amp;"@ && c == '&'
        }),
    ensures
        unescaped(front + entity + rest) == unescaped(front) + seq![c] + unescaped(rest),
{
    let own: nat = if c == '<' {
        0
    } else if c == '>' {
        1
    } else if c == '"' {
        2
    } else if c == '\'' {
        3
    } else {
        4
    };
    lemma_stage_splits(front, own, rest, 0);
    let front = text::replaced(front, "&lt;"@, '<');
    let rest = text::replaced(rest, "&lt;"@, '<');
    lemma_stage_splits(front, own, rest, 1);
    let front = text::replaced(front, "&gt;"@, '>');
    let rest = text::replaced(rest, "&gt;"@, '>');
    lemma_stage_splits(front, own, rest, 2);
    let front = text::replaced(front, "&quot;"@, '"');
    let rest = text::replaced(rest, "&quot;"@, '"');
    lemma_stage_splits(front, own, rest, 3);
    let front = text::replaced(front, "&apos;"@, '\'');
    let rest = text::replaced(rest, "&apos;"@, '\'');
    lemma_stage_splits(front, own, rest, 4);
}

/// A text that holds none of the five entities is read as it stands.
pub proof fn law_text_without_entities_is_kept(text: Seq<char>)
    requires
        forall|at: int|
            0 <= at < text.len() ==> !#[trigger] text::is_at(text, "&lt;"@, at) && !text::is_at(
                text,
                "&gt;"@,
                at,
            ) && !text::is_at(text, "&quot;"@, at) && !text::is_at(text, "&apos;"@, at)
                && !text::is_at(text, "&amp;"@, at),
    ensures
        unescaped(text) == text,
{
    reveal_entities();
    assert forall|at: int| 0 <= at < text.len() implies !#[trigger] text::is_at(
        text,
        "&gt;"@,
        at,
    ) by {
        assert(!text::is_at(text, "&lt;"@, at));
    }
    assert forall|at: int| 0 <= at < text.len() implies !#[trigger] text::is_at(
        text,
        "&quot;"@,
        at,
    ) by {
        assert(!text::is_at(text, "&lt;"@, at));
    }
    assert forall|at: int| 0 <= at < text.len() implies !#[trigger] text::is_at(
        text,
        "&apos;"@,
        at,
    ) by {
        assert(!text::is_at(text, "&lt;"@, at));
    }
    assert forall|at: int| 0 <= at < text.len() implies !#[trigger] text::is_at(
        text,
        "&amp;"@,
        at,
    ) by {
        assert(!text::is_at(text, "&lt;"@, at));
    }
    text::law_text_without_the_pattern_is_kept(text, "&lt;"@, '<');
    text::law_text_without_the_pattern_is_kept(text, "&gt;"@, '>');
    text::law_text_without_the_pattern_is_kept(text, "&quot;"@, '"');
    text::law_text_without_the_pattern_is_kept(text, "&apos;"@, '\'');
    text::law_text_without_the_pattern_is_kept(text, "&amp;"@, '&');
}

// ---------------------------------------------------------------------------
// Elements
// ---------------------------------------------------------------------------

/// The text between the first `<tag>` and the first `</tag>` behind it is read, and unescaped;
/// what stands around it, and what it holds, are of no account.
pub proof fn law_the_first_element_is_read(
    front: Seq<char>,
    tag: Seq<char>,
    content: Seq<char>,
    rest: Seq<char>,
)
    requires
        ({
            let open = seq!['<'] + tag + seq!['>'];
            let close = seq!['<', '/'] + tag + seq!['>'];
            &&& forall|at: int|
                0 <= at < front.len() ==> !#[trigger] text::is_at(
                    front + open + content + close + rest,
                    open,
                    at,
                )
            &&& forall|at: int|
                0 <= at < content.len() ==> !#[trigger] text::is_at(content + close + rest, close, at)
        }),
    ensures
        tag_text(
            front + (seq!['<'] + tag + seq!['>']) + content + (seq!['<', '/'] + tag + seq!['>'])
                + rest,
            tag,
        ) == Some(unescaped(content)),
{
    let open = seq!['<'] + tag + seq!['>'];
    let close = seq!['<', '/'] + tag + seq!['>'];
    let body = front + open + content + close + rest;
    let start = (front.len() + open.len()) as int;
    text::lemma_position_passes(body, open, 0, front.len() as int);
    assert(body.subrange(front.len() as int, start) == open);
    assert(body == (front + open) + (content + close + rest));
    text::lemma_position_passes(content + close + rest, close, 0, content.len() as int);
    let end = content.len() as int;
    assert((content + close + rest).subrange(end, end + close.len()) == close);
    text::lemma_position_shifts(front + open, content + close + rest, close, 0);
    assert(body.subrange(start, start + content.len()) == content);
}

/// Nothing is read where there is no `<tag>`, or no `</tag>` behind the first `<tag>`.
pub proof fn law_no_element_is_made_up(front: Seq<char>, tag: Seq<char>, rest: Seq<char>)
    ensures
        ({
            let open = seq!['<'] + tag + seq!['>'];
            let close = seq!['<', '/'] + tag + seq!['>'];
            &&& (forall|at: int|
                0 <= at < front.len() ==> !#[trigger] text::is_at(front, open, at)) ==> tag_text(
                front,
                tag,
            ) is None
            &&& (forall|at: int|
                0 <= at < front.len() ==> !#[trigger] text::is_at(front + open + rest, open, at))
                && (forall|at: int|
                0 <= at < rest.len() ==> !#[trigger] text::is_at(rest, close, at)) ==> tag_text(
                front + open + rest,
                tag,
            ) is None
        }),
{
    let open = seq!['<'] + tag + seq!['>'];
    let close = seq!['<', '/'] + tag + seq!['>'];
    if forall|at: int| 0 <= at < front.len() ==> !#[trigger] text::is_at(front, open, at) {
        text::lemma_position_passes(front, open, 0, front.len() as int);
    }
    let body = front + open + rest;
    if (forall|at: int| 0 <= at < front.len() ==> !#[trigger] text::is_at(body, open, at)) && (
    forall|at: int| 0 <= at < rest.len() ==> !#[trigger] text::is_at(rest, close, at)) {
        text::lemma_position_passes(body, open, 0, front.len() as int);
        assert(body.subrange(front.len() as int, (front.len() + open.len()) as int) == open);
        text::lemma_position_passes(rest, close, 0, rest.len() as int);
        assert(body == (front + open) + rest);
        text::lemma_position_shifts(front + open, rest, close, 0);
    }
}

// ---------------------------------------------------------------------------
// Documents
// ---------------------------------------------------------------------------

/// An element of a document: a name, and the text that it carries.
pub struct Element {
    pub name: Seq<char>,
    pub text: Seq<char>,
}

/// Whether `name` can name an element: one or more ASCII letters and digits.
pub open spec fn is_name(name: Seq<char>) -> bool {
    name.len() > 0 && forall|i: int|
        0 <= i < name.len() ==> #[trigger] is_name_char(name[i])
}

/// Whether `c` is an ASCII letter or digit.
pub open spec fn is_name_char(c: char) -> bool {
    'a' <= c <= 'z' || 'A' <= c <= 'Z' || '0' <= c <= '9'
}

/// The elements, one after the other, as they are written in a response.
pub open spec fn markup(elements: Seq<Element>) -> Seq<char>
    decreases elements.len(),
{
    if elements.len() == 0 {
        Seq::empty()
    } else {
        opening(elements[0].name) + escaped(elements[0].text) + closing(elements[0].name) + markup(
            elements.skip(1),
        )
    }
}

/// A `/serverinfo` response that carries the given elements.
pub open spec fn document(elements: Seq<Element>) -> Seq<char> {
    "<root status_code=\"200\">"@ + markup(elements) + "</root>"@
}

/// The text of the first element called `name`.
pub open spec fn first_text(elements: Seq<Element>, name: Seq<char>) -> Option<Seq<char>>
    decreases elements.len(),
{
    if elements.len() == 0 {
        None
    } else if elements[0].name == name {
        Some(elements[0].text)
    } else {
        first_text(elements.skip(1), name)
    }
}

/// Escaped text holds no tags.
proof fn lemma_escaped_has_no_brackets(text: Seq<char>)
    ensures
        forall|i: int|
            0 <= i < escaped(text).len() ==> #[trigger] escaped(text)[i] != '<' && escaped(text)[i]
                != '>',
    decreases text.len(),
{
    reveal_entities();
    if text.len() > 0 {
        lemma_escaped_has_no_brackets(text.skip(1));
        let head = escaped_char(text[0]);
        let rest = escaped(text.skip(1));
        assert forall|i: int| 0 <= i < (head + rest).len() implies #[trigger] (head + rest)[i] != '<'
            && (head + rest)[i] != '>' by {
            if i >= head.len() {
                assert((head + rest)[i] == rest[i - head.len()]);
            }
        }
    }
}

/// A front in which `<tag>` does not begin does not change what is found.
proof fn lemma_front_is_passed(front: Seq<char>, body: Seq<char>, tag: Seq<char>)
    requires
        forall|at: int|
            0 <= at < front.len() ==> !#[trigger] text::is_at(front + body, opening(tag), at),
    ensures
        tag_text(front + body, tag) == tag_text(body, tag),
{
    text::lemma_position_passes(front + body, opening(tag), 0, front.len() as int);
    text::lemma_position_shifts(front, body, opening(tag), 0);
    text::lemma_position_within(body, opening(tag), 0);
    if let Some(at) = text::position(body, opening(tag), 0) {
        let start = at + opening(tag).len();
        text::lemma_position_shifts(front, body, closing(tag), start);
        text::lemma_position_within(body, closing(tag), start);
        if let Some(end) = text::position(body, closing(tag), start) {
            assert((front + body).subrange(front.len() + start, front.len() + end)
                == body.subrange(start, end));
        }
    }
}

/// An element that comes first is found, and its text is read back.
proof fn lemma_first_element_is_found(element: Element, rest: Seq<char>)
    ensures
        tag_text(
            opening(element.name) + escaped(element.text) + closing(element.name) + rest,
            element.name,
        ) == Some(element.text),
{
    let open = opening(element.name);
    let close = closing(element.name);
    let content = escaped(element.text);
    let body = open + content + close + rest;
    assert(body.subrange(0, open.len() as int) == open);
    let start = open.len() as int;
    let end = start + content.len();
    lemma_escaped_has_no_brackets(element.text);
    assert forall|at: int| start <= at < end implies !#[trigger] text::is_at(body, close, at) by {
        if text::is_at(body, close, at) {
            assert(body.subrange(at, at + close.len())[0] == body[at]);
            assert(body[at] == content[at - start]);
        }
    }
    text::lemma_position_passes(body, close, start, end);
    assert(body.subrange(end, end + close.len()) == close);
    assert(body.subrange(start, end) == content);
    law_unescaping_undoes_escaping(element.text);
}

/// An element of another name is passed over.
proof fn lemma_other_element_is_passed(element: Element, rest: Seq<char>, tag: Seq<char>)
    requires
        is_name(element.name),
        is_name(tag),
        element.name != tag,
    ensures
        tag_text(
            opening(element.name) + escaped(element.text) + closing(element.name) + rest,
            tag,
        ) == tag_text(rest, tag),
{
    let name = element.name;
    let content = escaped(element.text);
    let front = opening(name) + content + closing(name);
    let body = front + rest;
    lemma_escaped_has_no_brackets(element.text);
    assert forall|at: int| 0 <= at < front.len() implies !#[trigger] text::is_at(
        body,
        opening(tag),
        at,
    ) by {
        if text::is_at(body, opening(tag), at) {
            let window = body.subrange(at, at + opening(tag).len());
            assert(window[0] == body[at]);
            assert(body[at] == front[at]);
            assert(window[1] == body[at + 1]);
            assert(is_name_char(tag[0]));
            if at == 0 {
                assert forall|i: int|
                    0 <= i < tag.len() && i < name.len() implies tag[i] == name[i] by {
                    assert(window[i + 1] == body[i + 1]);
                }
                if tag.len() < name.len() {
                    assert(window[1 + tag.len() as int] == body[1 + tag.len() as int]);
                    assert(is_name_char(name[tag.len() as int]));
                } else if name.len() < tag.len() {
                    assert(window[1 + name.len() as int] == body[1 + name.len() as int]);
                    assert(is_name_char(tag[name.len() as int]));
                } else {
                    assert(tag =~= name);
                }
            } else if at < opening(name).len() {
                if at <= name.len() {
                    assert(is_name_char(name[at - 1]));
                }
            } else if at < opening(name).len() + content.len() {
                assert(front[at] == content[at - opening(name).len()]);
            } else {
                let k = at - opening(name).len() - content.len();
                assert(front[at] == closing(name)[k]);
                if 2 <= k < name.len() + 2 {
                    assert(is_name_char(name[k - 2]));
                }
            }
        }
    }
    lemma_front_is_passed(front, rest, tag);
}

/// Looking an element up in a document finds the first one of that name and gives its text
/// back, unescaped; a name that the document does not hold is not found.
pub proof fn law_elements_read_back(elements: Seq<Element>, name: Seq<char>)
    requires
        is_name(name),
        forall|i: int| 0 <= i < elements.len() ==> is_name(#[trigger] elements[i].name),
    ensures
        tag_text(document(elements), name) == first_text(elements, name),
{
    let root = "<root status_code=\"200\">"@;
    let end = "</root>"@;
    let body = markup(elements) + end;
    reveal_strlit("<root status_code=\"200\">");
    assert forall|at: int| 0 <= at < root.len() implies !#[trigger] text::is_at(
        root + body,
        opening(name),
        at,
    ) by {
        if text::is_at(root + body, opening(name), at) {
            let window = (root + body).subrange(at, at + opening(name).len());
            assert(window[0] == (root + body)[at]);
            assert((root + body)[at] == root[at]);
            if at == 0 {
                // The name would have to reach as far as the space, which no name holds.
                assert(window.last() == (root + body)[1 + name.len() as int]);
                if name.len() >= 5 {
                    assert(window[5] == (root + body)[5]);
                    assert(is_name_char(name[4]));
                } else {
                    assert(window[1 + name.len() as int] == root[1 + name.len() as int]);
                }
            }
        }
    }
    lemma_front_is_passed(root, body, name);
    assert(document(elements) == root + body);
    lemma_elements_read_back(elements, name);
}

proof fn lemma_elements_read_back(elements: Seq<Element>, name: Seq<char>)
    requires
        is_name(name),
        forall|i: int| 0 <= i < elements.len() ==> is_name(#[trigger] elements[i].name),
    ensures
        tag_text(markup(elements) + "</root>"@, name) == first_text(elements, name),
    decreases elements.len(),
{
    let end = "</root>"@;
    if elements.len() == 0 {
        reveal_strlit("</root>");
        assert(markup(elements) + end == end);
        assert forall|at: int| 0 <= at < end.len() implies !#[trigger] text::is_at(
            end + Seq::empty(),
            opening(name),
            at,
        ) by {
            if text::is_at(end + Seq::empty(), opening(name), at) {
                let window = (end + Seq::empty()).subrange(at, at + opening(name).len());
                assert(window[0] == end[at]);
                assert(window[1] == end[at + 1]);
                assert(is_name_char(name[0]));
            }
        }
        lemma_front_is_passed(end, Seq::empty(), name);
        assert(end + Seq::<char>::empty() == end);
    } else {
        let element = elements[0];
        let rest = markup(elements.skip(1)) + end;
        assert(markup(elements) + end == opening(element.name) + escaped(element.text) + closing(
            element.name,
        ) + rest);
        if element.name == name {
            lemma_first_element_is_found(element, rest);
        } else {
            lemma_other_element_is_passed(element, rest, name);
            lemma_elements_read_back(elements.skip(1), name);
        }
    }
}

} // verus!
