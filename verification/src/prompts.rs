//! The decisions behind the interactive prompts: tag lists typed as
//! comma-separated text, and what a typed color means.

use vstd::prelude::*;
use crate::config::{HexColor, is_hex_color};
use crate::error::ReportalError;
use crate::text::{
    chars_of, is_whitespace, join, lemma_split_on_concat, lemma_split_on_pieces, lemma_split_on_without_separator,
    lemma_trim_shape, split_chars, split_on, string_of, string_views, trim, trim_start, trimmed, views,
};

verus! {

/// The trimmed, non-empty pieces, in order.
pub open spec fn kept_tags(pieces: Seq<Seq<char>>) -> Seq<Seq<char>>
    decreases pieces.len(),
{
    if pieces.len() == 0 {
        Seq::empty()
    } else {
        let rest = kept_tags(pieces.drop_last());
        if trim(pieces.last()).len() > 0 {
            rest.push(trim(pieces.last()))
        } else {
            rest
        }
    }
}

/// Splits on `,`, trims each piece and drops the empty ones.
pub fn parse_comma_separated_tags(raw_input: &str) -> (tags: Vec<String>)
    ensures
        string_views(tags@) == kept_tags(split_on(raw_input@, ',')),
{
    let characters = chars_of(raw_input);
    let pieces = split_chars(characters.as_slice(), ',');
    let ghost piece_views = views(pieces@);
    let mut tags: Vec<String> = Vec::new();
    let mut index: usize = 0;
    while index < pieces.len()
        invariant
            piece_views == views(pieces@),
            index <= pieces@.len(),
            string_views(tags@) == kept_tags(piece_views.take(index as int)),
        decreases pieces@.len() - index,
    {
        let cleaned = trimmed(pieces[index].as_slice());
        let ghost before = tags@;
        let ghost prefix = piece_views.take(index + 1);
        assert(prefix.drop_last() =~= piece_views.take(index as int));
        assert(prefix.last() == pieces@[index as int]@);
        if cleaned.len() > 0 {
            tags.push(string_of(cleaned.as_slice()));
            assert(string_views(tags@) =~= string_views(before).push(cleaned@));
        }
        index = index + 1;
    }
    assert(piece_views.take(piece_views.len() as int) =~= piece_views);
    tags
}

/// A tag as the parser keeps it: non-empty, no whitespace at either end,
/// no comma.
pub open spec fn is_clean_tag(tag: Seq<char>) -> bool {
    &&& tag.len() > 0
    &&& !is_whitespace(tag[0])
    &&& !is_whitespace(tag.last())
    &&& !tag.contains(',')
}

/// A clean tag, alone or after one space, trims to itself.
proof fn lemma_clean_tag_trims(tag: Seq<char>)
    requires
        is_clean_tag(tag),
    ensures
        trim(tag) == tag,
        trim(seq![' '] + tag) == tag,
{
    let spaced = seq![' '] + tag;
    assert(is_whitespace(' '));
    assert(spaced.skip(1) =~= tag);
    assert(trim_start(spaced) == trim_start(tag));
}

/// Every tag the parser keeps is clean, when no piece holds a comma.
pub proof fn lemma_kept_tags_are_clean(pieces: Seq<Seq<char>>)
    requires
        forall|i: int| 0 <= i < pieces.len() ==> !(#[trigger] pieces[i]).contains(','),
    ensures
        forall|i: int| 0 <= i < kept_tags(pieces).len() ==> is_clean_tag(#[trigger] kept_tags(pieces)[i]),
    decreases pieces.len(),
{
    if pieces.len() > 0 {
        let rest = pieces.drop_last();
        assert forall|i: int| 0 <= i < rest.len() implies !(#[trigger] rest[i]).contains(',') by {
            assert(rest[i] == pieces[i]);
        }
        lemma_kept_tags_are_clean(rest);
        let last = pieces.last();
        lemma_trim_shape(last);
        assert(!pieces[pieces.len() - 1].contains(','));
        if trim(last).contains(',') {
            assert(last.contains(','));
        }
        let kept_rest = kept_tags(rest);
        if trim(last).len() > 0 {
            assert(kept_tags(pieces) == kept_rest.push(trim(last)));
            assert forall|i: int| 0 <= i < kept_tags(pieces).len() implies is_clean_tag(
                #[trigger] kept_tags(pieces)[i],
            ) by {
                if i < kept_rest.len() {
                    assert(kept_tags(pieces)[i] == kept_rest[i]);
                }
            }
        }
    }
}

/// Clean tags joined with `", "` read back as the same tags.
pub proof fn lemma_joined_clean_tags_read_back(tags: Seq<Seq<char>>)
    requires
        forall|i: int| 0 <= i < tags.len() ==> is_clean_tag(#[trigger] tags[i]),
    ensures
        kept_tags(split_on(join(tags, seq![',', ' ']), ',')) == tags,
    decreases tags.len(),
{
    let separator = seq![',', ' '];
    if tags.len() == 0 {
        let empty_text: Seq<char> = seq![];
        assert(empty_text.subrange(0, 0) =~= empty_text);
        assert(split_on(join(tags, separator), ',') == seq![empty_text]);
        assert(trim(empty_text) =~= empty_text);
        assert(seq![empty_text].drop_last() =~= Seq::<Seq<char>>::empty());
        assert(kept_tags(Seq::<Seq<char>>::empty()) == Seq::<Seq<char>>::empty());
        assert(kept_tags(seq![empty_text]).len() == 0);
        assert(kept_tags(split_on(join(tags, separator), ',')) =~= tags);
    } else if tags.len() == 1 {
        lemma_clean_tag_trims(tags[0]);
        lemma_split_on_without_separator(tags[0], ',');
        assert(join(tags, separator) == tags[0]);
        assert(seq![tags[0]].drop_last() =~= Seq::<Seq<char>>::empty());
        assert(kept_tags(Seq::<Seq<char>>::empty()) == Seq::<Seq<char>>::empty());
        assert(seq![tags[0]].last() == tags[0]);
        assert(kept_tags(seq![tags[0]]) == Seq::<Seq<char>>::empty().push(tags[0]));
        assert(kept_tags(split_on(join(tags, separator), ',')) =~= tags);
    } else {
        let init = tags.drop_last();
        let last = tags.last();
        assert(is_clean_tag(tags[tags.len() - 1]));
        assert forall|i: int| 0 <= i < init.len() implies is_clean_tag(#[trigger] init[i]) by {
            assert(init[i] == tags[i]);
        }
        lemma_joined_clean_tags_read_back(init);
        let spaced = seq![' '] + last;
        assert(join(tags, separator) =~= join(init, separator) + seq![','] + spaced);
        lemma_split_on_concat(join(init, separator), spaced, ',');
        assert(!spaced.contains(',')) by {
            if spaced.contains(',') {
                let k = choose|k: int| 0 <= k < spaced.len() && spaced[k] == ',';
                assert(last[k - 1] == ',');
            }
        }
        lemma_split_on_without_separator(spaced, ',');
        lemma_clean_tag_trims(last);
        let pieces = split_on(join(init, separator), ',') + seq![spaced];
        assert(pieces.drop_last() =~= split_on(join(init, separator), ','));
        assert(kept_tags(pieces) =~= init.push(last));
        assert(init.push(last) =~= tags);
    }
}

/// Parsed tags shown joined with `", "`, as the edit menu offers them,
/// parse back to the same tags: accepting the offered text changes
/// nothing.
pub proof fn lemma_shown_tags_parse_back(raw_input: Seq<char>)
    ensures
        kept_tags(split_on(join(kept_tags(split_on(raw_input, ',')), ", "@), ','))
            == kept_tags(split_on(raw_input, ',')),
{
    reveal_strlit(", ");
    assert(", "@ =~= seq![',', ' ']);
    lemma_split_on_pieces(raw_input, ',');
    lemma_kept_tags_are_clean(split_on(raw_input, ','));
    lemma_joined_clean_tags_read_back(kept_tags(split_on(raw_input, ',')));
}

/// A color typed for a new repository.
pub enum ColorPromptResult {
    /// A valid `#RRGGBB` color.
    Provided(HexColor),
    /// Left empty: no color.
    Skipped,
}

/// A color typed while editing a repository.
pub enum ColorEditResult {
    /// A valid color different from the current one.
    Provided(HexColor),
    /// Left empty: remove the color.
    Cleared,
    /// The current color, confirmed.
    Unchanged(HexColor),
}

/// What one answer to a color prompt means: a final result, or an error
/// to show before asking again.
pub enum PromptAnswer<T> {
    Accepted(T),
    AskAgain(ReportalError),
}

/// Reads an answer to the new-repository color prompt: empty skips, a
/// valid color is taken, anything else is shown and asked again.
pub fn interpret_color_input(color_input: &str) -> (answer: PromptAnswer<ColorPromptResult>)
    ensures
        color_input@.len() == 0 ==> answer matches PromptAnswer::Accepted(ColorPromptResult::Skipped),
        color_input@.len() > 0 && is_hex_color(color_input@) ==> (answer matches PromptAnswer::Accepted(
            ColorPromptResult::Provided(color),
        ) && color@ == color_input@),
        color_input@.len() > 0 && !is_hex_color(color_input@) ==> (answer matches PromptAnswer::AskAgain(
            ReportalError::InvalidHexColor { input },
        ) && input@ == color_input@),
{
    if color_input.is_empty() {
        return PromptAnswer::Accepted(ColorPromptResult::Skipped);
    }
    match HexColor::parse(color_input) {
        Ok(valid_color) => PromptAnswer::Accepted(ColorPromptResult::Provided(valid_color)),
        Err(color_error) => PromptAnswer::AskAgain(color_error),
    }
}

/// Reads an answer to the color edit prompt, whose default is the current
/// color: empty clears, the current color is unchanged, another valid
/// color is taken, anything else is shown and asked again.
pub fn interpret_color_edit_input(color_input: &str, current_default: &str) -> (answer: PromptAnswer<
    ColorEditResult,
>)
    ensures
        color_input@.len() == 0 ==> answer matches PromptAnswer::Accepted(ColorEditResult::Cleared),
        color_input@.len() > 0 && !is_hex_color(color_input@) ==> (answer matches PromptAnswer::AskAgain(
            ReportalError::InvalidHexColor { input },
        ) && input@ == color_input@),
        color_input@.len() > 0 && is_hex_color(color_input@) && color_input@ == current_default@
            ==> (answer matches PromptAnswer::Accepted(ColorEditResult::Unchanged(color)) && color@
            == color_input@),
        color_input@.len() > 0 && is_hex_color(color_input@) && color_input@ != current_default@
            ==> (answer matches PromptAnswer::Accepted(ColorEditResult::Provided(color)) && color@
            == color_input@),
{
    if color_input.is_empty() {
        return PromptAnswer::Accepted(ColorEditResult::Cleared);
    }
    let valid_color = match HexColor::parse(color_input) {
        Ok(parsed) => parsed,
        Err(color_error) => {
            return PromptAnswer::AskAgain(color_error);
        },
    };
    if crate::config::same_text(color_input, current_default) {
        return PromptAnswer::Accepted(ColorEditResult::Unchanged(valid_color));
    }
    PromptAnswer::Accepted(ColorEditResult::Provided(valid_color))
}

} // verus!
