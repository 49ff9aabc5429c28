//! A file name taken apart, so that a part of it can be picked to filter by.
use vstd::prelude::*;
use vstd::string::*;

use crate::text::{blank, chars_of, is_blank, string_of};
use crate::util::path_text::{may_be_named, path_file_name, text_of};

verus! {

/// What a part of a file name stands for.
#[derive(Clone, Copy, Debug, PartialEq, Eq, Structural)]
pub enum FilenamePartRole {
    Kind,
    Author,
    AuthorAlias,
    Title,
    Work,
    Edition,
    Extra,
}

pub struct FilenamePart {
    pub role: FilenamePartRole,
    pub text: String,
}

/// A part that can be picked.
pub struct SelectableToken {
    pub role: FilenamePartRole,
    pub text: String,
}

/// A stretch of the name as it is shown: text around the parts, or a part.
pub enum FilenameSegment {
    Text(String),
    Token { token_idx: usize, text: String },
}

/// A stretch, as a value.
pub enum Segment {
    Text(Seq<char>),
    Token(nat, Seq<char>),
}

pub open spec fn segment_view(segment: FilenameSegment) -> Segment {
    match segment {
        FilenameSegment::Text(text) => Segment::Text(text@),
        FilenameSegment::Token { token_idx, text } => Segment::Token(token_idx as nat, text@),
    }
}

pub open spec fn segments_view(segments: Seq<FilenameSegment>) -> Seq<Segment> {
    segments.map_values(|segment: FilenameSegment| segment_view(segment))
}

/// The stretches with a text behind them, unless it is empty.
pub open spec fn with_text(segments: Seq<Segment>, text: Seq<char>) -> Seq<Segment> {
    if text.len() == 0 {
        segments
    } else {
        segments.push(Segment::Text(text))
    }
}

/// How a part is set: what stands before and behind it.
pub open spec fn brackets(role: FilenamePartRole, at_start: bool, title_seen: bool) -> (
    Seq<char>,
    Seq<char>,
) {
    match role {
        FilenamePartRole::Kind => (
            if at_start {
                "("@
            } else {
                " ("@
            },
            ")"@,
        ),
        FilenamePartRole::Author => (
            if at_start {
                "["@
            } else {
                " ["@
            },
            "]"@,
        ),
        FilenamePartRole::Edition => (
            if at_start {
                "["@
            } else {
                " ["@
            },
            "]"@,
        ),
        FilenamePartRole::Work => (
            if title_seen {
                " ("@
            } else {
                "("@
            },
            ")"@,
        ),
        _ => (
            if at_start {
                ""@
            } else {
                " "@
            },
            ""@,
        ),
    }
}

/// Whether the part behind `i` is the other name of the author at `i`.
pub open spec fn has_alias(parts: Seq<FilenamePart>, i: int) -> bool {
    parts[i].role == FilenamePartRole::Author && i + 1 < parts.len() && parts[i + 1].role
        == FilenamePartRole::AuthorAlias
}

/// Whether a title stands among the parts before `i`.
pub open spec fn title_before(parts: Seq<FilenamePart>, i: int) -> bool {
    exists|j: int| 0 <= j < i && j < parts.len() && (#[trigger] parts[j]).role
        == FilenamePartRole::Title
}

/// The stretches of the parts from `i` on, behind `segments`; the part at `i` is picked by the
/// number `i`. An author's other name stands within the author's brackets.
pub open spec fn segments_from(parts: Seq<FilenamePart>, i: int, segments: Seq<Segment>) -> Seq<
    Segment,
>
    decreases parts.len() - i,
{
    if i < 0 || i >= parts.len() {
        segments
    } else {
        let (lead, tail) = brackets(parts[i].role, segments.len() == 0, title_before(parts, i));
        let part = with_text(segments, lead).push(Segment::Token(i as nat, parts[i].text@));
        if has_alias(parts, i) {
            segments_from(
                parts,
                i + 2,
                with_text(
                    with_text(
                        with_text(part, " ("@).push(
                            Segment::Token((i + 1) as nat, parts[i + 1].text@),
                        ),
                        ")"@,
                    ),
                    tail,
                ),
            )
        } else {
            segments_from(parts, i + 1, with_text(part, tail))
        }
    }
}

/// The file name as it is shown: its parts in their brackets, and the extension.
pub open spec fn shown_name(parts: Seq<FilenamePart>, extension: Option<Seq<char>>) -> Seq<Segment> {
    let segments = segments_from(parts, 0, Seq::empty());
    match extension {
        Some(text) => with_text(segments, text),
        None => segments,
    }
}

/// Whether the tokens are the parts, one for one.
pub open spec fn are_tokens(tokens: Seq<SelectableToken>, parts: Seq<FilenamePart>) -> bool {
    &&& tokens.len() == parts.len()
    &&& forall|i: int|
        0 <= i < tokens.len() ==> (#[trigger] tokens[i]).role == parts[i].role && tokens[i].text@
            == parts[i].text@
}

fn push_text_segment(segments: &mut Vec<FilenameSegment>, text: &str)
    ensures
        segments_view(final(segments)@) == with_text(segments_view(old(segments)@), text@),
{
    if text.is_empty() {
        return;
    }
    let ghost before = segments@;
    segments.push(FilenameSegment::Text(text.to_owned()));
    assert(segments_view(segments@) =~= segments_view(before).push(Segment::Text(text@)));
}

fn push_token_segment(
    segments: &mut Vec<FilenameSegment>,
    tokens: &mut Vec<SelectableToken>,
    part: &FilenamePart,
)
    ensures
        segments_view(final(segments)@) == segments_view(old(segments)@).push(
            Segment::Token(old(tokens)@.len(), part.text@),
        ),
        final(tokens)@.len() == old(tokens)@.len() + 1,
        final(tokens)@.drop_last() == old(tokens)@,
        final(tokens)@.last().role == part.role,
        final(tokens)@.last().text@ == part.text@,
{
    let token_idx: usize = tokens.len();
    let ghost before_tokens = tokens@;
    tokens.push(SelectableToken { role: part.role, text: part.text.clone() });
    assert(tokens@.drop_last() =~= before_tokens);
    let ghost before = segments@;
    segments.push(FilenameSegment::Token { token_idx, text: part.text.clone() });
    assert(segments_view(segments@) =~= segments_view(before).push(
        Segment::Token(token_idx as nat, part.text@),
    ));
}

proof fn lemma_one_more_token(
    tokens: Seq<SelectableToken>,
    more: Seq<SelectableToken>,
    parts: Seq<FilenamePart>,
)
    requires
        tokens.len() < parts.len(),
        are_tokens(tokens, parts.take(tokens.len() as int)),
        more.len() == tokens.len() + 1,
        more.drop_last() == tokens,
        more.last().role == parts[tokens.len() as int].role,
        more.last().text@ == parts[tokens.len() as int].text@,
    ensures
        are_tokens(more, parts.take(more.len() as int)),
{
    assert forall|i: int| 0 <= i < more.len() implies (#[trigger] more[i]).role == parts.take(
        more.len() as int,
    )[i].role && more[i].text@ == parts.take(more.len() as int)[i].text@ by {
        if i < tokens.len() {
            assert(more.drop_last()[i] == more[i]);
            assert(tokens[i].role == parts.take(tokens.len() as int)[i].role);
        }
    }
}

/// Takes a file name apart: the stretches it is shown by, and the parts that can be picked.
pub fn build_filename_segments(parts: &Vec<FilenamePart>, extension: Option<&str>) -> (built: (
    Vec<FilenameSegment>,
    Vec<SelectableToken>,
))
    ensures
        segments_view(built.0@) == shown_name(
            parts@,
            match extension {
                Some(text) => Some(text@),
                None => None,
            },
        ),
        are_tokens(built.1@, parts@),
{
    let mut segments: Vec<FilenameSegment> = Vec::new();
    let mut tokens: Vec<SelectableToken> = Vec::new();
    let mut i: usize = 0;
    let mut title_seen: bool = false;
    assert(segments_view(segments@) =~= Seq::empty());
    let ghost whole = segments_from(parts@, 0, Seq::empty());
    proof {
        reveal_strlit("");
        reveal_strlit(" ");
        reveal_strlit("(");
        reveal_strlit(" (");
        reveal_strlit(")");
        reveal_strlit("[");
        reveal_strlit(" [");
        reveal_strlit("]");
    }
    while i < parts.len()
        invariant
            i <= parts@.len(),
            tokens@.len() == i,
            are_tokens(tokens@, parts@.take(i as int)),
            title_seen == title_before(parts@, i as int),
            whole == segments_from(parts@, 0, Seq::empty()),
            whole == segments_from(parts@, i as int, segments_view(segments@)),
        decreases parts@.len() - i,
    {
        let role: FilenamePartRole = parts[i].role;
        let at_start: bool = segments.len() == 0;
        let ghost start = segments_view(segments@);
        let (lead, tail): (&str, &str) = match role {
            FilenamePartRole::Kind => (
                if at_start {
                    "("
                } else {
                    " ("
                },
                ")",
            ),
            FilenamePartRole::Author => (
                if at_start {
                    "["
                } else {
                    " ["
                },
                "]",
            ),
            FilenamePartRole::Edition => (
                if at_start {
                    "["
                } else {
                    " ["
                },
                "]",
            ),
            FilenamePartRole::Work => (
                if title_seen {
                    " ("
                } else {
                    "("
                },
                ")",
            ),
            _ => (
                if at_start {
                    ""
                } else {
                    " "
                },
                "",
            ),
        };
        assert((lead@, tail@) == brackets(role, start.len() == 0, title_seen));
        push_text_segment(&mut segments, lead);
        let ghost before = tokens@;
        push_token_segment(&mut segments, &mut tokens, &parts[i]);
        proof {
            lemma_one_more_token(before, tokens@, parts@);
        }
        let ghost part = segments_view(segments@);
        let mut taken: usize = 1;
        if role == FilenamePartRole::Author && parts.len() - i >= 2 && parts[i + 1].role
            == FilenamePartRole::AuthorAlias {
            assert(has_alias(parts@, i as int));
            push_text_segment(&mut segments, " (");
            let ghost before = tokens@;
            push_token_segment(&mut segments, &mut tokens, &parts[i + 1]);
            proof {
                lemma_one_more_token(before, tokens@, parts@);
            }
            push_text_segment(&mut segments, ")");
            taken = 2;
        }
        push_text_segment(&mut segments, tail);
        if role == FilenamePartRole::Title {
            assert(parts@[i as int].role == FilenamePartRole::Title);
            title_seen = true;
        }
        i = i + taken;
        proof {
            assert(title_seen == title_before(parts@, i as int)) by {
                if title_before(parts@, i as int) && !title_seen {
                    let j = choose|j: int|
                        0 <= j < i && j < parts@.len() && (#[trigger] parts@[j]).role
                            == FilenamePartRole::Title;
                    assert(j < i - taken);
                    assert(title_before(parts@, i - taken));
                }
                if title_before(parts@, i - taken) {
                    let j = choose|j: int|
                        0 <= j < i - taken && j < parts@.len() && (#[trigger] parts@[j]).role
                            == FilenamePartRole::Title;
                    assert(parts@[j].role == FilenamePartRole::Title);
                }
            }
        }
    }
    assert(parts@.take(i as int) =~= parts@);
    if let Some(text) = extension {
        push_text_segment(&mut segments, text);
    }
    (segments, tokens)
}

/// The first token with a role.
pub open spec fn first_with(tokens: Seq<SelectableToken>, role: FilenamePartRole, i: int) -> bool {
    &&& 0 <= i < tokens.len()
    &&& tokens[i].role == role
    &&& forall|j: int| 0 <= j < i ==> (#[trigger] tokens[j]).role != role
}

pub open spec fn has_role(tokens: Seq<SelectableToken>, role: FilenamePartRole) -> bool {
    exists|i: int| 0 <= i < tokens.len() && (#[trigger] tokens[i]).role == role
}

fn position_of_role(tokens: &Vec<SelectableToken>, role: FilenamePartRole) -> (position: Option<usize>)
    ensures
        position is None ==> !has_role(tokens@, role),
        position matches Some(i) ==> first_with(tokens@, role, i as int),
{
    let mut i: usize = 0;
    while i < tokens.len()
        invariant
            i <= tokens@.len(),
            forall|j: int| 0 <= j < i ==> (#[trigger] tokens@[j]).role != role,
        decreases tokens@.len() - i,
    {
        if tokens[i].role == role {
            return Some(i);
        }
        i = i + 1;
    }
    None
}

/// Whether `index` is that of the token that is picked at first: the author, else the title, else
/// the first one.
pub open spec fn is_default_token(tokens: Seq<SelectableToken>, index: usize) -> bool {
    if has_role(tokens, FilenamePartRole::Author) {
        first_with(tokens, FilenamePartRole::Author, index as int)
    } else if has_role(tokens, FilenamePartRole::Title) {
        first_with(tokens, FilenamePartRole::Title, index as int)
    } else {
        index == 0
    }
}

pub fn default_selected_token_index(tokens: &Vec<SelectableToken>) -> (index: usize)
    ensures
        is_default_token(tokens@, index),
        tokens@.len() > 0 ==> index < tokens@.len(),
{
    match position_of_role(tokens, FilenamePartRole::Author) {
        Some(i) => {
            assert(tokens@[i as int].role == FilenamePartRole::Author);
            i
        },
        None => match position_of_role(tokens, FilenamePartRole::Title) {
            Some(i) => {
                assert(tokens@[i as int].role == FilenamePartRole::Title);
                i
            },
            None => 0,
        },
    }
}

/// The token that is picked: the one that was, where it is still there, else the default.
pub fn selected_token_index(tokens: &Vec<SelectableToken>, last: Option<usize>) -> (index: usize)
    ensures
        match last {
            Some(last) if last < tokens@.len() => index == last,
            _ => is_default_token(tokens@, index),
        },
        tokens@.len() > 0 ==> index < tokens@.len(),
{
    match last {
        Some(last) => if last < tokens.len() {
            last
        } else {
            default_selected_token_index(tokens)
        },
        None => default_selected_token_index(tokens),
    }
}

/// Whether the picked token can be used.
pub fn can_apply_token(token: &SelectableToken) -> (can: bool)
    ensures
        can == !blank(token.text@),
{
    !is_blank(token.text.as_str())
}

/// The name to take apart, unless it is blank.
pub open spec fn unless_blank(name: Seq<char>) -> Option<Seq<char>> {
    if blank(name) {
        None
    } else {
        Some(name)
    }
}

/// The name of a book to take apart: its file name, or its title where the path has none.
pub fn name_to_take_apart(path: &str, title: &str) -> (name: Option<String>)
    ensures
        exists|found: Option<Seq<char>>| #[trigger]
            may_be_named(path@, found) && text_of(name) == unless_blank(
                match found {
                    Some(found) => found,
                    None => title@,
                },
            ),
{
    let told: Option<String> = path_file_name(path);
    assert(may_be_named(path@, text_of(told)));
    let found: String = match told {
        Some(found) => found,
        None => title.to_owned(),
    };
    if is_blank(found.as_str()) {
        None
    } else {
        Some(found)
    }
}

/// The place of the dot that the extension starts with: the last of all dots and slashes, where
/// it is a dot and not the first character.
pub open spec fn extension_start(name: Seq<char>, end: int) -> Option<int>
    decreases end,
{
    if end <= 0 || end > name.len() {
        None
    } else if name[end - 1] == '.' {
        if end == 1 {
            None
        } else {
            Some(end - 1)
        }
    } else if name[end - 1] == '/' || name[end - 1] == '\\' {
        None
    } else {
        extension_start(name, end - 1)
    }
}

/// The extension of a file name, with its dot.
pub open spec fn dotted_extension(name: Seq<char>) -> Option<Seq<char>> {
    match extension_start(name, name.len() as int) {
        Some(at) => Some(name.skip(at)),
        None => None,
    }
}

pub fn split_extension(filename: &str) -> (extension: Option<String>)
    ensures
        text_of(extension) == dotted_extension(filename@),
{
    let chars: Vec<char> = chars_of(filename);
    let mut end: usize = chars.len();
    while end > 0 && chars[end - 1] != '.' && chars[end - 1] != '/' && chars[end - 1] != '\\'
        invariant
            end <= chars@.len(),
            chars@ == filename@,
            extension_start(filename@, filename@.len() as int) == extension_start(
                filename@,
                end as int,
            ),
        decreases end,
    {
        end = end - 1;
    }
    if end <= 1 || chars[end - 1] != '.' {
        return None;
    }
    let mut tail: Vec<char> = Vec::new();
    let mut i: usize = end - 1;
    assert(tail@ =~= filename@.subrange(end - 1, i as int));
    while i < chars.len()
        invariant
            1 < end <= chars@.len(),
            end - 1 <= i <= chars@.len(),
            chars@ == filename@,
            tail@ == filename@.subrange(end - 1, i as int),
        decreases chars@.len() - i,
    {
        tail.push(chars[i]);
        i = i + 1;
        assert(tail@ =~= filename@.subrange(end - 1, i as int));
    }
    assert(tail@ =~= filename@.skip(end - 1));
    Some(string_of(&tail))
}

/// What is shown keeps what stood before, part by part.
proof fn lemma_segments_keep(parts: Seq<FilenamePart>, i: int, segments: Seq<Segment>, k: int)
    requires
        0 <= k < segments.len(),
        0 <= i,
    ensures
        segments_from(parts, i, segments).len() >= segments.len(),
        segments_from(parts, i, segments)[k] == segments[k],
    decreases parts.len() - i,
{
    if i < parts.len() {
        let (lead, tail) = brackets(parts[i].role, segments.len() == 0, title_before(parts, i));
        let part = with_text(segments, lead).push(Segment::Token(i as nat, parts[i].text@));
        assert(part[k] == segments[k]);
        if has_alias(parts, i) {
            let next = with_text(
                with_text(
                    with_text(part, " ("@).push(
                        Segment::Token((i + 1) as nat, parts[i + 1].text@),
                    ),
                    ")"@,
                ),
                tail,
            );
            assert(next[k] == segments[k]);
            lemma_segments_keep(parts, i + 2, next, k);
        } else {
            let next = with_text(part, tail);
            assert(next[k] == segments[k]);
            lemma_segments_keep(parts, i + 1, next, k);
        }
    }
}

proof fn lemma_segments_hold(parts: Seq<FilenamePart>, i: int, segments: Seq<Segment>, p: int)
    requires
        0 <= i <= p < parts.len(),
    ensures
        segments_from(parts, i, segments).contains(Segment::Token(p as nat, parts[p].text@)),
    decreases parts.len() - i,
{
    let (lead, tail) = brackets(parts[i].role, segments.len() == 0, title_before(parts, i));
    let part = with_text(segments, lead).push(Segment::Token(i as nat, parts[i].text@));
    let at = with_text(segments, lead).len() as int;
    assert(part[at] == Segment::Token(i as nat, parts[i].text@));
    if has_alias(parts, i) {
        let open = with_text(part, " ("@);
        let alias = open.push(Segment::Token((i + 1) as nat, parts[i + 1].text@));
        let next = with_text(with_text(alias, ")"@), tail);
        assert(next[at] == part[at]);
        assert(alias[open.len() as int] == Segment::Token((i + 1) as nat, parts[i + 1].text@));
        assert(next[open.len() as int] == alias[open.len() as int]);
        lemma_segments_keep(parts, i + 2, next, at);
        lemma_segments_keep(parts, i + 2, next, open.len() as int);
        if p > i + 1 {
            lemma_segments_hold(parts, i + 2, next, p);
        }
    } else {
        let next = with_text(part, tail);
        assert(next[at] == part[at]);
        lemma_segments_keep(parts, i + 1, next, at);
        if p > i {
            lemma_segments_hold(parts, i + 1, next, p);
        }
    }
}

/// Every part of a file name is shown and can be picked by its number.
pub proof fn law_every_part_is_shown(
    parts: Seq<FilenamePart>,
    extension: Option<Seq<char>>,
    p: int,
)
    requires
        0 <= p < parts.len(),
    ensures
        shown_name(parts, extension).contains(Segment::Token(p as nat, parts[p].text@)),
{
    lemma_segments_hold(parts, 0, Seq::empty(), p);
    let segments = segments_from(parts, 0, Seq::empty());
    let k = choose|k: int|
        0 <= k < segments.len() && segments[k] == Segment::Token(p as nat, parts[p].text@);
    assert(shown_name(parts, extension)[k] == segments[k]);
}

/// Kinds and works stand in round brackets, authors and editions in square ones, and everything
/// else in none.
pub proof fn law_roles_have_their_brackets(at_start: bool, title_seen: bool)
    ensures
        brackets(FilenamePartRole::Kind, true, title_seen) == ("("@, ")"@),
        brackets(FilenamePartRole::Kind, false, title_seen) == (" ("@, ")"@),
        brackets(FilenamePartRole::Author, true, title_seen) == ("["@, "]"@),
        brackets(FilenamePartRole::Author, false, title_seen) == (" ["@, "]"@),
        brackets(FilenamePartRole::Edition, at_start, title_seen) == brackets(
            FilenamePartRole::Author,
            at_start,
            title_seen,
        ),
        brackets(FilenamePartRole::Work, at_start, true) == (" ("@, ")"@),
        brackets(FilenamePartRole::Work, at_start, false) == ("("@, ")"@),
        brackets(FilenamePartRole::Title, true, title_seen) == (""@, ""@),
        brackets(FilenamePartRole::Title, false, title_seen) == (" "@, ""@),
{
}

proof fn lemma_extension_start(name: Seq<char>, end: int, k: int)
    requires
        0 <= end <= name.len(),
    ensures
        extension_start(name, end) matches Some(at) ==> {
            &&& 0 < at < end
            &&& name[at] == '.'
            &&& at < k < end ==> name[k] != '.' && name[k] != '/' && name[k] != '\\'
        },
        extension_start(name, end) is None && 0 < k < end && name[k] == '.' ==> exists|j: int|
            k < j < end && (#[trigger] name[j] == '/' || name[j] == '\\'),
    decreases end,
{
    if end > 0 {
        let c = name[end - 1];
        if c == '.' {
            if extension_start(name, end) is None && 0 < k < end {
                assert(end == 1);
            }
        } else if c == '/' || c == '\\' {
            if 0 < k < end && name[k] == '.' {
                assert(k < end - 1);
                assert(name[end - 1] == '/' || name[end - 1] == '\\');
            }
        } else {
            lemma_extension_start(name, end - 1, k);
            if extension_start(name, end) is None && 0 < k < end && name[k] == '.' {
                let j = choose|j: int|
                    k < j < end - 1 && (#[trigger] name[j] == '/' || name[j] == '\\');
                assert(k < j < end);
            }
        }
    }
}

/// The extension of a file name starts with its last dot and holds neither another dot nor a
/// slash; a name has none where a slash follows every dot but a leading one.
pub proof fn law_extensions_start_with_the_last_dot(name: Seq<char>, k: int)
    ensures
        dotted_extension(name) matches Some(text) ==> {
            &&& 0 < text.len() < name.len()
            &&& text == name.skip(name.len() - text.len())
            &&& text[0] == '.'
            &&& 0 < k < text.len() ==> text[k] != '.' && text[k] != '/' && text[k] != '\\'
        },
        dotted_extension(name) is None && 0 < k < name.len() && name[k] == '.' ==> exists|j: int|
            k < j < name.len() && (#[trigger] name[j] == '/' || name[j] == '\\'),
{
    lemma_extension_start(name, name.len() as int, k);
    if let Some(at) = extension_start(name, name.len() as int) {
        lemma_extension_start(name, name.len() as int, at + k);
        assert(name.skip(at)[0] == name[at]);
        if 0 < k < name.len() - at {
            assert(name.skip(at)[k] == name[at + k]);
        }
    }
}

/// The token that is picked at first is the first author, else the first title, else the first of
/// all.
pub proof fn law_authors_are_picked_first(tokens: Seq<SelectableToken>, index: usize, i: int)
    requires
        is_default_token(tokens, index),
        0 <= i < tokens.len(),
    ensures
        tokens[i].role == FilenamePartRole::Author ==> index <= i && tokens[index as int].role
            == FilenamePartRole::Author,
        tokens[i].role == FilenamePartRole::Title && tokens[index as int].role
            != FilenamePartRole::Author ==> index <= i && tokens[index as int].role
            == FilenamePartRole::Title,
        tokens[index as int].role != FilenamePartRole::Author && tokens[index as int].role
            != FilenamePartRole::Title ==> index == 0,
{
    assert(tokens[i].role == FilenamePartRole::Author ==> has_role(
        tokens,
        FilenamePartRole::Author,
    ));
    assert(tokens[i].role == FilenamePartRole::Title ==> has_role(tokens, FilenamePartRole::Title));
}

/// The other name of an author stands in round brackets within the author's square ones.
pub proof fn law_aliases_stand_with_their_author(author: FilenamePart, alias: FilenamePart)
    requires
        author.role == FilenamePartRole::Author,
        alias.role == FilenamePartRole::AuthorAlias,
    ensures
        shown_name(seq![author, alias], None) == seq![
            Segment::Text("["@),
            Segment::Token(0, author.text@),
            Segment::Text(" ("@),
            Segment::Token(1, alias.text@),
            Segment::Text(")"@),
            Segment::Text("]"@),
        ],
{
    reveal_strlit("[");
    reveal_strlit("]");
    reveal_strlit(" (");
    reveal_strlit(")");
    reveal_with_fuel(segments_from, 3);
    let parts = seq![author, alias];
    assert(has_alias(parts, 0));
    assert(shown_name(parts, None) =~= seq![
        Segment::Text("["@),
        Segment::Token(0, author.text@),
        Segment::Text(" ("@),
        Segment::Token(1, alias.text@),
        Segment::Text(")"@),
        Segment::Text("]"@),
    ]);
}

} // verus!
