//! What holds of texts, numbers, versions and collections.

use std::sync::Arc;
use vstd::prelude::*;

use crate::auto_update::{AutoUpdateSettingContent, JsonRelease, VersionCheckType};
use crate::clock::Global;
use crate::collab::format_stat;
use crate::collections::{MapKey, VecMap, VecSet};
use crate::decimal::{law_written_number_reads_back, push_decimal, to_decimal, value_of};
use crate::file_links::ResolvedPath;
use crate::hover_links::{
    HoverLink, LocationLink, RangeInEditor, TriggerPoint,
};
use crate::text::{
    byte_len, char_index, chars_of, collect_text, is_whitespace, lemma_byte_len_subrange,
    lemma_index_of, lemma_width, spec_is_whitespace, text_between, utf8_width, BufferSnapshot,
};
use crate::text_order::{
    before, contains_login, law_texts_are_ordered, text_order, HasLogin, TextOrder,
};
use crate::user::{Contact, User};

verus! {

/// Whitespace is the tab, the four line breaks behind it, the space, the next-line and the no-break space,
/// the Ogham space, the spaces of general punctuation, the two separators, the narrow no-break and the
/// mathematical space, and the ideographic space. No other character is.
pub proof fn law_whitespace(c: char, result: bool)
    requires
        call_ensures(is_whitespace, (c,), result),
    ensures
        result == spec_is_whitespace(c),
        result <==> {
            let code = c as int;
            ||| 9 <= code && code <= 13
            ||| code == 32
            ||| code == 133
            ||| code == 160
            ||| code == 5760
            ||| 8192 <= code && code <= 8202
            ||| code == 8232
            ||| code == 8233
            ||| code == 8239
            ||| code == 8287
            ||| code == 12288
        },
{
}

/// A character takes one byte up to code 127, two up to 2047, three up to 65535, and four behind that.
pub proof fn law_width_of_a_character(c: char, width: usize)
    requires
        call_ensures(utf8_width, (c,), width),
    ensures
        c as int <= 127 ==> width == 1,
        128 <= c as int <= 2047 ==> width == 2,
        2048 <= c as int <= 65535 ==> width == 3,
        c as int > 65535 ==> width == 4,
{
    lemma_width(c);
}

/// A byte offset stands for the character index up to which the text takes that many bytes, and for none if
/// it falls into a character.
pub proof fn law_index_of_an_offset(chars: &Vec<char>, offset: usize, index: Option<usize>, i: int)
    requires
        call_ensures(char_index, (chars, offset), index),
        0 <= i <= chars@.len(),
    ensures
        byte_len(chars@.take(i)) == offset <==> index is Some && index->0 == i,
{
    lemma_index_of(chars@, i);
}

/// The text between the offsets of two indices is what stands between the indices.
pub proof fn law_text_between_offsets(chars: Seq<char>, i: int, j: int)
    requires
        0 <= i <= j <= chars.len(),
    ensures
        text_between(chars, byte_len(chars.take(i)) as int, byte_len(chars.take(j)) as int)
            == chars.subrange(i, j),
{
    lemma_index_of(chars, i);
    lemma_index_of(chars, j);
}

/// A snapshot holds its text, as long as the text is, and its offsets are those between characters.
pub proof fn law_snapshot(
    text: &str,
    taken: BufferSnapshot,
    snapshot: &BufferSnapshot,
    len: usize,
    offset: usize,
    boundary: bool,
    i: int,
)
    requires
        call_ensures(BufferSnapshot::new, (text,), taken),
        call_ensures(BufferSnapshot::len, (snapshot,), len),
        call_ensures(BufferSnapshot::is_char_boundary, (snapshot, offset), boundary),
        0 <= i <= snapshot@.len(),
    ensures
        taken@ == text@,
        len == byte_len(snapshot@),
        byte_len(snapshot@.take(i)) == offset ==> boundary,
        i < snapshot@.len() && byte_len(snapshot@.take(i)) < offset && offset < byte_len(
            snapshot@.take(i + 1),
        ) ==> !boundary,
        offset > len ==> !boundary,
{
    lemma_index_of(snapshot@, i);
    if boundary {
        let k = choose|k: int|
            0 <= k <= snapshot@.len() && #[trigger] byte_len(snapshot@.take(k)) == offset;
        lemma_index_of(snapshot@, k);
        if k <= i {
            lemma_byte_len_subrange(snapshot@, k, i);
        } else {
            if i < snapshot@.len() {
                lemma_byte_len_subrange(snapshot@, i + 1, k);
            }
        }
    }
}

/// A text is its characters, and a stretch of characters is a text.
pub proof fn law_characters_of_a_text(
    text: &str,
    chars: Vec<char>,
    source: &Vec<char>,
    start: usize,
    end: usize,
    copied: String,
)
    requires
        call_ensures(chars_of, (text,), chars),
        call_ensures(collect_text, (source, start, end), copied),
        start <= end <= source@.len(),
    ensures
        chars@ == text@,
        copied@.len() == end - start,
        forall|i: int| 0 <= i < end - start ==> (#[trigger] copied@[i]) == source@[start + i],
{
}

/// A number that is written reads back as the number, behind what was written before.
pub proof fn law_written_number(number: u64, text: String, longer: &mut String)
    requires
        call_ensures(to_decimal, (number,), text),
        call_ensures(push_decimal, (longer, number), ()),
    ensures
        value_of(text@) == number,
        text@.len() > 0,
        number > 0 ==> text@[0] != '0',
        forall|i: int|
            0 <= i < text@.len() ==> '0' as int <= (#[trigger] text@[i]) as int && text@[i] as int
                <= '9' as int,
        final(longer)@ == old(longer)@ + text@,
{
    law_written_number_reads_back(number as nat);
}

/// A version has changes exactly if it counts more edits of some replica; versions are the same if they
/// count the same.
pub proof fn law_changed_version(
    version: &Global,
    other: &Global,
    changed: bool,
    same: bool,
    fresh: Global,
)
    requires
        call_ensures(Global::changed_since, (version, other), changed),
        call_ensures(Global::same, (version, other), same),
        call_ensures(Global::new, (), fresh),
    ensures
        changed <==> exists|i: int|
            0 <= i < version@.len() && (#[trigger] version@[i]) > if i < other@.len() {
                other@[i]
            } else {
                0
            },
        same <==> version@ == other@,
        fresh@.len() == 0,
        same ==> !changed,
{
    crate::clock::law_version_changed_if_some_edit_is_newer(version@, other@);
}

/// How two texts stand to each other tells which of them comes first, or that they are the same.
pub proof fn law_order_of_texts(a: &str, b: &str, order: TextOrder)
    requires
        call_ensures(text_order, (a, b), order),
    ensures
        order is Before <==> before(a@, b@),
        order is After <==> before(b@, a@),
        order is Same <==> a@ == b@,
{
    law_texts_are_ordered(a@, b@);
}

/// A sorted list is found to hold a login exactly if one of its items has it.
pub proof fn law_searched_list<T: HasLogin>(list: &Vec<Arc<T>>, login: &str, result: bool)
    requires
        call_ensures(contains_login::<T>, (list, login), result),
    ensures
        result <==> exists|i: int| 0 <= i < list@.len() && (#[trigger] list@[i]).login() == login@,
{
    if exists|i: int| 0 <= i < list@.len() && (#[trigger] list@[i]).login() == login@ {
        let i = choose|i: int| 0 <= i < list@.len() && (#[trigger] list@[i]).login() == login@;
        assert(list@[i].login() == login@);
    }
}

/// What a map is told of a key is what was inserted for it last, unless it was removed since. Other keys
/// are not concerned.
pub proof fn law_entries_of_a_map<K: MapKey, V>(
    inserting: &mut VecMap<K, V>,
    key: K,
    value: V,
    replaced: Option<V>,
    removing: &mut VecMap<K, V>,
    removed: Option<V>,
    other: K::V,
)
    requires
        call_ensures(VecMap::<K, V>::insert, (inserting, key, value), replaced),
        call_ensures(VecMap::<K, V>::remove, (removing, &key), removed),
    ensures
        final(inserting)@.contains_key(key@) && final(inserting)@[key@] == value,
        replaced is Some <==> old(inserting)@.contains_key(key@),
        replaced is Some ==> replaced->0 == old(inserting)@[key@],
        !final(removing)@.contains_key(key@),
        removed is Some <==> old(removing)@.contains_key(key@),
        removed is Some ==> removed->0 == old(removing)@[key@],
        other != key@ ==> {
            &&& final(inserting)@.contains_key(other) == old(inserting)@.contains_key(other)
            &&& final(inserting)@[other] == old(inserting)@[other]
            &&& final(removing)@.contains_key(other) == old(removing)@.contains_key(other)
            &&& old(removing)@.contains_key(other) ==> final(removing)@[other] == old(
                removing,
            )@[other]
        },
{
}

/// A map tells what it holds.
pub proof fn law_told_entries<K: MapKey, V>(
    map: &VecMap<K, V>,
    key: &K,
    holds: bool,
    value: Option<&V>,
    fresh: VecMap<K, V>,
)
    requires
        call_ensures(VecMap::<K, V>::contains_key, (map, key), holds),
        call_ensures(VecMap::<K, V>::get, (map, key), value),
        call_ensures(VecMap::<K, V>::new, (), fresh),
    ensures
        holds <==> map@.contains_key(key@),
        value is Some <==> holds,
        value is Some ==> *value->0 == map@[key@],
        !fresh@.contains_key(key@),
{
}

/// A set holds what was inserted and not removed since. Other keys are not concerned.
pub proof fn law_members_of_a_set<K: MapKey>(
    inserting: &mut VecSet<K>,
    key: K,
    inserted: bool,
    removing: &mut VecSet<K>,
    removed: bool,
    other: K::V,
)
    requires
        call_ensures(VecSet::<K>::insert, (inserting, key), inserted),
        call_ensures(VecSet::<K>::remove, (removing, &key), removed),
    ensures
        final(inserting)@.contains(key@),
        inserted <==> !old(inserting)@.contains(key@),
        !final(removing)@.contains(key@),
        removed <==> old(removing)@.contains(key@),
        other != key@ ==> final(inserting)@.contains(other) == old(inserting)@.contains(other)
            && final(removing)@.contains(other) == old(removing)@.contains(other),
{
}

/// A set tells what it holds.
pub proof fn law_told_members<K: MapKey>(set: &VecSet<K>, key: &K, holds: bool, fresh: VecSet<K>)
    requires
        call_ensures(VecSet::<K>::contains, (set, key), holds),
        call_ensures(VecSet::<K>::new, (), fresh),
    ensures
        holds <==> set@.contains(key@),
        !fresh@.contains(key@),
{
}

/// Users are the same exactly if identity and login agree; contacts if the users do and they are alike in
/// being online and busy.
pub proof fn law_same_users(
    a: &User,
    b: &User,
    users: bool,
    c: &Contact,
    d: &Contact,
    contacts: bool,
)
    requires
        call_ensures(User::eq, (a, b), users),
        call_ensures(Contact::eq, (c, d), contacts),
    ensures
        users <==> a.id == b.id && a.github_login@ == b.github_login@,
        contacts <==> c.user.id == d.user.id && c.user.github_login@ == d.user.github_login@
            && c.online == d.online && c.busy == d.busy,
{
}

/// Trigger points are the same if every part is, and versions if they are of one sort and alike.
pub proof fn law_same_points_and_versions(
    a: &TriggerPoint,
    b: &TriggerPoint,
    points: bool,
    c: &VersionCheckType,
    d: &VersionCheckType,
    versions: bool,
)
    requires
        call_ensures(TriggerPoint::eq, (a, b), points),
        call_ensures(VersionCheckType::eq, (c, d), versions),
    ensures
        points ==> (a is Text) == (b is Text),
        a is Text && b is Text ==> points == (a->Text_0 == b->Text_0),
        a is InlayHint && b is InlayHint ==> points == (a->InlayHint_0 == b->InlayHint_0
            && a->InlayHint_1.uri@ == b->InlayHint_1.uri@ && a->InlayHint_1.start
            == b->InlayHint_1.start && a->InlayHint_1.end == b->InlayHint_1.end && a->InlayHint_2
            == b->InlayHint_2),
        versions ==> (c is Sha) == (d is Sha),
        c is Sha && d is Sha ==> versions == (c->Sha_0.0@ == d->Sha_0.0@),
        c is Semantic && d is Semantic ==> versions == (c->Semantic_0 == d->Semantic_0),
{
}

/// What is written by default: no user, and updates that are checked for.
pub proof fn law_defaults(user: User, setting: AutoUpdateSettingContent)
    requires
        call_ensures(User::default, (), user),
        call_ensures(AutoUpdateSettingContent::default, (), setting),
    ensures
        user.id == 0 && user.github_login@.len() == 0 && user.avatar_uri@.len() == 0,
        user.name is None && user.email is None,
        setting.0,
{
}

/// A statistic is written as its format says, and one that is missing as a dash.
pub proof fn law_written_statistic<T, F: Fn(T) -> String>(
    value: Option<T>,
    format: F,
    text: String,
)
    requires
        call_ensures(format_stat::<T, F>, (value, format), text),
    ensures
        value is Some ==> call_ensures(format, (value->0,), text),
        value is None ==> text@.len() == 1 && text@[0] == '\u{2014}',
{
    reveal_strlit("\u{2014}");
}

/// Copies are what they are copies of.
pub proof fn law_copies(
    link: &HoverLink,
    link_copy: HoverLink,
    location: &LocationLink,
    location_copy: LocationLink,
    stretch: &RangeInEditor,
    stretch_copy: RangeInEditor,
    point: &TriggerPoint,
    point_copy: TriggerPoint,
    version: &VersionCheckType,
    version_copy: VersionCheckType,
    release: &JsonRelease,
    release_copy: JsonRelease,
    path: &ResolvedPath,
    path_copy: ResolvedPath,
    clock: &Global,
    clock_copy: Global,
)
    requires
        call_ensures(HoverLink::clone, (link,), link_copy),
        call_ensures(LocationLink::clone, (location,), location_copy),
        call_ensures(RangeInEditor::clone, (stretch,), stretch_copy),
        call_ensures(TriggerPoint::clone, (point,), point_copy),
        call_ensures(VersionCheckType::clone, (version,), version_copy),
        call_ensures(JsonRelease::clone, (release,), release_copy),
        call_ensures(ResolvedPath::clone, (path,), path_copy),
        call_ensures(Global::clone, (clock,), clock_copy),
    ensures
        link_copy == *link,
        location_copy == *location,
        stretch_copy == *stretch,
        point_copy == *point,
        version_copy == *version,
        release_copy == *release,
        path_copy == *path,
        clock_copy@ == clock@,
{
}

} // verus!
