//! Extraction: from the text of an IR file to the records that it holds.
//!
//! What matches is decided by regular expressions. This module fixes the
//! patterns and says how the groups of each match become a record; what
//! the matches of a pattern are is left to the matcher.

use vstd::prelude::*;
use crate::resolver::{find_record, get_rust_debug_metadata};
use crate::structs::{
    LLVMDebugTypeInformation, LLVMLocalTypeVariableDebugInfo, LinkModel, MultipleTagsTag,
    RecordModel, record_models,
};
use crate::table::{TextMap, lemma_last_insertion, lemma_map_of_pairs_push, map_of_pairs};
use crate::text::{GroupsModel, captures_iter, regex_captures, regex_compiles};

verus! {

/// A location tag inside a list of tags.
pub const TAG_PATTERN: &'static str = "(!\\d+)";

/// A record that lists other records: its tag, and the list if it is
/// not empty.
pub const MULTIPLE_TAGS_PATTERN: &'static str = "(!\\d+) = !\\{(!.+)?\\}";

/// A debug-value statement: the type and name of a local value, and the
/// tag of its debug record.
pub const LINK_PATTERN: &'static str =
    "@llvm\\.dbg\\.value\\(metadata (\\S+) (\\S+), metadata ([^,]+), metadata !DIExpression\\(\\)\\)";

/// A debug record: its tag, its variant name and its parameters.
pub const RECORD_PATTERN: &'static str = "(!\\d+) = (!\\S+)\\((.+)\\)";

/// One parameter of a record: its key and its value.
pub const PARAMETER_PATTERN: &'static str = "([^:\\s]+):\\s([^,]+)[,\\s]?";

/// Why a text could not be read.
#[derive(Clone, Copy, Debug, PartialEq, Eq, Structural)]
pub enum ExtractError {
    /// The matcher did not accept a pattern.
    InvalidPattern,
    /// A match has not the groups that its pattern should give.
    MalformedMatch,
}

/// The matches of a pattern, each as the list of its groups.
pub type Captures = Vec<Vec<Option<String>>>;

/// The results for the first `n` items, in order, or the first failure
/// among them.
pub open spec fn collected<T, E>(items: spec_fn(int) -> Result<T, E>, n: nat) -> Result<Seq<T>, E>
    decreases n,
{
    if n == 0 {
        Ok(Seq::empty())
    } else {
        match collected(items, (n - 1) as nat) {
            Err(e) => Err(e),
            Ok(done) => match items(n - 1) {
                Err(e) => Err(e),
                Ok(item) => Ok(done.push(item)),
            },
        }
    }
}

/// A failure among the first items is the outcome for any longer list.
pub proof fn lemma_collected_failure<T, E>(items: spec_fn(int) -> Result<T, E>, i: nat, n: nat)
    requires
        i <= n,
        collected(items, i) is Err,
    ensures
        collected(items, n) == collected(items, i),
    decreases n - i,
{
    if i < n {
        lemma_collected_failure(items, i, (n - 1) as nat);
    }
}

/// Where all items succeed, there is one result for each, in order.
pub proof fn lemma_collected_all<T, E>(items: spec_fn(int) -> Result<T, E>, n: nat)
    requires
        forall|i: int| 0 <= i < n ==> (#[trigger] items(i)) is Ok,
    ensures
        collected(items, n) is Ok,
        collected(items, n)->Ok_0.len() == n,
        forall|i: int| 0 <= i < n ==> collected(items, n)->Ok_0[i] == (#[trigger] items(i))->Ok_0,
    decreases n,
{
    if n > 0 {
        lemma_collected_all(items, (n - 1) as nat);
    }
}

/// Where the outcome is a list, it holds the result of each item, in
/// order.
pub proof fn lemma_collected_items<T, E>(items: spec_fn(int) -> Result<T, E>, n: nat)
    requires
        collected(items, n) is Ok,
    ensures
        collected(items, n)->Ok_0.len() == n,
        forall|i: int|
            0 <= i < n ==> (#[trigger] items(i)) is Ok && collected(items, n)->Ok_0[i] == items(
                i,
            )->Ok_0,
    decreases n,
{
    if n > 0 {
        lemma_collected_items(items, (n - 1) as nat);
    }
}

// ---------------------------------------------------------------------
// Lists of tags
// ---------------------------------------------------------------------

/// The tag that one match of [`TAG_PATTERN`] gives: its one group.
pub open spec fn tag_of_match(groups: GroupsModel) -> Result<Seq<char>, ExtractError> {
    if groups.len() == 2 && groups[1] is Some {
        Ok(groups[1]->Some_0)
    } else {
        Err(ExtractError::MalformedMatch)
    }
}

/// What each match of a list gives as a tag.
pub open spec fn tag_items(matches: Seq<GroupsModel>) -> spec_fn(int) -> Result<
    Seq<char>,
    ExtractError,
> {
    |i: int| tag_of_match(matches[i])
}

/// The tags that the matches of [`TAG_PATTERN`] give, in the order of
/// the matches.
pub open spec fn tags_of_matches(matches: Seq<GroupsModel>) -> Result<Seq<Seq<char>>, ExtractError> {
    collected(tag_items(matches), matches.len())
}

/// What a pattern gives on a text, once `read` says what its matches
/// give: a failure where the matcher does not accept the pattern.
pub open spec fn matched<T>(
    pattern: Seq<char>,
    text: Seq<char>,
    read: spec_fn(Seq<GroupsModel>) -> Result<T, ExtractError>,
) -> Result<T, ExtractError> {
    if regex_compiles(pattern) {
        read(regex_captures(pattern, text))
    } else {
        Err(ExtractError::InvalidPattern)
    }
}

/// The tags in a list of tags such as `!1485, !1489`.
pub open spec fn multiple_tags(tags: Seq<char>) -> Result<Seq<Seq<char>>, ExtractError> {
    matched(TAG_PATTERN@, tags, |m: Seq<GroupsModel>| tags_of_matches(m))
}

/// Matches that each hold one tag give these tags, one for each match,
/// in the order of the matches.
pub proof fn lemma_tags_in_order(matches: Seq<GroupsModel>)
    requires
        forall|i: int|
            0 <= i < matches.len() ==> (#[trigger] matches[i]).len() == 2 && matches[i][1] is Some,
    ensures
        tags_of_matches(matches) matches Ok(tags) && tags.len() == matches.len() && forall|i: int|
            0 <= i < tags.len() ==> tags[i] == (#[trigger] matches[i])[1]->Some_0,
{
    let items = tag_items(matches);
    assert forall|i: int| 0 <= i < matches.len() implies (#[trigger] items(i)) is Ok by {
        assert(matches[i].len() == 2);
    }
    lemma_collected_all(items, matches.len());
    let tags = tags_of_matches(matches)->Ok_0;
    assert forall|i: int| 0 <= i < tags.len() implies tags[i] == (#[trigger] matches[i])[1]->Some_0 by {
        assert(tags[i] == items(i)->Ok_0);
    }
}

/// The group of a match at place `k`, where it has one that took part.
fn group(groups: &Vec<Option<String>>, k: usize) -> (r: Option<&String>)
    ensures
        match r {
            Some(s) => k < groups.len() && groups.deep_view()[k as int] == Some(s@),
            None => k >= groups.len() || groups.deep_view()[k as int] is None,
        },
{
    if k < groups.len() {
        match &groups[k] {
            Some(s) => Some(s),
            None => None,
        }
    } else {
        None
    }
}

/// Reads the tags off the matches of [`TAG_PATTERN`].
pub fn tags_from_captures(captures: &Captures) -> (r: Result<Vec<String>, ExtractError>)
    ensures
        match tags_of_matches(captures.deep_view()) {
            Ok(tags) => r is Ok && r->Ok_0.deep_view() == tags,
            Err(e) => r == Err::<Vec<String>, ExtractError>(e),
        },
{
    let ghost matches = captures.deep_view();
    let mut tags_vec: Vec<String> = Vec::new();
    let mut i: usize = 0;
    assert(tags_vec.deep_view() =~= Seq::<Seq<char>>::empty());
    while i < captures.len()
        invariant
            i <= captures.len(),
            matches == captures.deep_view(),
            collected(tag_items(matches), i as nat) == Ok::<Seq<Seq<char>>, ExtractError>(
                tags_vec.deep_view(),
            ),
        decreases captures.len() - i,
    {
        let caps = &captures[i];
        assert(caps.deep_view() == matches[i as int]);
        let ghost before = tags_vec.deep_view();
        match group(caps, 1) {
            Some(tag) if caps.len() == 2 => {
                tags_vec.push(tag.clone());
                assert(tags_vec.deep_view() =~= before.push(tag@));
            },
            _ => {
                proof {
                    assert(tag_items(matches)(i as int) is Err);
                    lemma_collected_failure(
                        tag_items(matches),
                        (i + 1) as nat,
                        matches.len(),
                    );
                }
                return Err(ExtractError::MalformedMatch);
            },
        }
        i += 1;
    }
    Ok(tags_vec)
}

/// Extracts `!1485, !1489` into the list of `!1485` and `!1489`.
pub fn extract_llvm_multiple_tags(tags: &str) -> (r: Result<Vec<String>, ExtractError>)
    ensures
        match multiple_tags(tags@) {
            Ok(list) => r is Ok && r->Ok_0.deep_view() == list,
            Err(e) => r == Err::<Vec<String>, ExtractError>(e),
        },
{
    match captures_iter(TAG_PATTERN, tags) {
        Ok(captures) => tags_from_captures(&captures),
        Err(_) => Err(ExtractError::InvalidPattern),
    }
}

// ---------------------------------------------------------------------
// Records that list other records
// ---------------------------------------------------------------------

/// The record that one match of [`MULTIPLE_TAGS_PATTERN`] gives: the tag
/// of its first group, with the tags in its second group, or with none
/// where the braces were empty.
pub open spec fn tags_entry_of_match(groups: GroupsModel) -> Result<
    (Seq<char>, Seq<Seq<char>>),
    ExtractError,
> {
    if groups.len() == 3 && groups[1] is Some {
        match groups[2] {
            Some(list) => match multiple_tags(list) {
                Ok(tags) => Ok((groups[1]->Some_0, tags)),
                Err(e) => Err(e),
            },
            None => Ok((groups[1]->Some_0, Seq::empty())),
        }
    } else {
        Err(ExtractError::MalformedMatch)
    }
}

/// What each match of a list gives as a record that lists others.
pub open spec fn tags_entry_items(matches: Seq<GroupsModel>) -> spec_fn(int) -> Result<
    (Seq<char>, Seq<Seq<char>>),
    ExtractError,
> {
    |i: int| tags_entry_of_match(matches[i])
}

/// The map from tag to list of tags that the matches of
/// [`MULTIPLE_TAGS_PATTERN`] give. Where a tag is defined twice, the
/// later list stands.
pub open spec fn tag_table_of_matches(matches: Seq<GroupsModel>) -> Result<
    Map<Seq<char>, Seq<Seq<char>>>,
    ExtractError,
> {
    match collected(tags_entry_items(matches), matches.len()) {
        Ok(entries) => Ok(map_of_pairs(entries)),
        Err(e) => Err(e),
    }
}

/// A record with empty braces gives its tag an empty list: the tag is in
/// the map, unless a later record defines it again.
pub proof fn lemma_empty_braces(matches: Seq<GroupsModel>, i: int, tag: Seq<char>)
    requires
        tag_table_of_matches(matches) is Ok,
        0 <= i < matches.len(),
        matches[i].len() == 3,
        matches[i][1] == Some(tag),
        matches[i][2] is None,
        forall|j: int| i < j < matches.len() ==> (#[trigger] matches[j])[1] != Some(tag),
    ensures
        tag_table_of_matches(matches)->Ok_0.contains_key(tag),
        tag_table_of_matches(matches)->Ok_0[tag] == Seq::<Seq<char>>::empty(),
{
    let items = tags_entry_items(matches);
    lemma_collected_items(items, matches.len());
    let entries = collected(items, matches.len())->Ok_0;
    assert(entries[i] == items(i)->Ok_0);
    assert forall|j: int| i < j < entries.len() implies (#[trigger] entries[j]).0 != tag by {
        assert(entries[j] == items(j)->Ok_0);
        assert(items(j) is Ok);
        assert(matches[j][1] != Some(tag));
    }
    lemma_last_insertion(entries, tag, i);
}

/// The map from tag to list of tags that a text gives.
pub open spec fn tag_table_of_text(text: Seq<char>) -> Result<
    Map<Seq<char>, Seq<Seq<char>>>,
    ExtractError,
> {
    matched(MULTIPLE_TAGS_PATTERN@, text, |m: Seq<GroupsModel>| tag_table_of_matches(m))
}

impl View for MultipleTagsTag {
    type V = (Seq<char>, Seq<Seq<char>>);

    open spec fn view(&self) -> (Seq<char>, Seq<Seq<char>>) {
        (self.location_tag@, self.tags.deep_view())
    }
}

/// Reads one record that lists other records off a match of
/// [`MULTIPLE_TAGS_PATTERN`].
pub fn tags_entry_from_groups(groups: &Vec<Option<String>>) -> (r: Result<
    MultipleTagsTag,
    ExtractError,
>)
    ensures
        match tags_entry_of_match(groups.deep_view()) {
            Ok(entry) => r is Ok && r->Ok_0@ == entry,
            Err(e) => r == Err::<MultipleTagsTag, ExtractError>(e),
        },
{
    if groups.len() != 3 {
        return Err(ExtractError::MalformedMatch);
    }
    let location_tag = match group(groups, 1) {
        Some(tag) => tag.clone(),
        None => {
            return Err(ExtractError::MalformedMatch);
        },
    };
    let tags = match group(groups, 2) {
        Some(list) => match extract_llvm_multiple_tags(list.as_str()) {
            Ok(tags) => tags,
            Err(e) => {
                return Err(e);
            },
        },
        None => {
            let none: Vec<String> = Vec::new();
            assert(none.deep_view() =~= Seq::<Seq<char>>::empty());
            none
        },
    };
    Ok(MultipleTagsTag { location_tag, tags })
}

/// Reads the map from tag to list of tags off the matches of
/// [`MULTIPLE_TAGS_PATTERN`].
pub fn tag_table_from_captures(captures: &Captures) -> (r: Result<
    TextMap<Vec<String>>,
    ExtractError,
>)
    ensures
        match tag_table_of_matches(captures.deep_view()) {
            Ok(table) => r is Ok && r->Ok_0@ == table,
            Err(e) => r == Err::<TextMap<Vec<String>>, ExtractError>(e),
        },
{
    let ghost matches = captures.deep_view();
    let ghost mut entries: Seq<(Seq<char>, Seq<Seq<char>>)> = Seq::empty();
    let mut table: TextMap<Vec<String>> = TextMap::new();
    let mut i: usize = 0;
    while i < captures.len()
        invariant
            i <= captures.len(),
            matches == captures.deep_view(),
            collected(tags_entry_items(matches), i as nat) == Ok::<
                Seq<(Seq<char>, Seq<Seq<char>>)>,
                ExtractError,
            >(entries),
            table@ == map_of_pairs(entries),
        decreases captures.len() - i,
    {
        assert(captures[i as int].deep_view() == matches[i as int]);
        match tags_entry_from_groups(&captures[i]) {
            Ok(entry) => {
                proof {
                    lemma_map_of_pairs_push(entries, entry.location_tag@, entry.tags.deep_view());
                    entries = entries.push(entry@);
                }
                table.insert(entry.location_tag, entry.tags);
            },
            Err(e) => {
                proof {
                    assert(tags_entry_items(matches)(i as int) is Err);
                    lemma_collected_failure(
                        tags_entry_items(matches),
                        (i + 1) as nat,
                        matches.len(),
                    );
                }
                return Err(e);
            },
        }
        i += 1;
    }
    Ok(table)
}

/// Reads every record of the form `!1488 = !{!1485, !1489}` from the
/// text: the map from each such tag to the tags that it lists, in their
/// order. Empty braces give an empty list.
pub fn extract_llvm_multiple_tags_tag(file_as_string: &str) -> (r: Result<
    TextMap<Vec<String>>,
    ExtractError,
>)
    ensures
        match tag_table_of_text(file_as_string@) {
            Ok(table) => r is Ok && r->Ok_0@ == table,
            Err(e) => r == Err::<TextMap<Vec<String>>, ExtractError>(e),
        },
{
    match captures_iter(MULTIPLE_TAGS_PATTERN, file_as_string) {
        Ok(captures) => tag_table_from_captures(&captures),
        Err(_) => Err(ExtractError::InvalidPattern),
    }
}

// ---------------------------------------------------------------------
// Links
// ---------------------------------------------------------------------

/// The link that one match of [`LINK_PATTERN`] gives: its three groups.
pub open spec fn link_of_match(groups: GroupsModel) -> Result<LinkModel, ExtractError> {
    if groups.len() == 4 && groups[1] is Some && groups[2] is Some && groups[3] is Some {
        Ok(
            LinkModel {
                local_var_type: groups[1]->Some_0,
                local_var_name: groups[2]->Some_0,
                location_tag: groups[3]->Some_0,
            },
        )
    } else {
        Err(ExtractError::MalformedMatch)
    }
}

/// What each match of a list gives as a link.
pub open spec fn link_items(matches: Seq<GroupsModel>) -> spec_fn(int) -> Result<
    LinkModel,
    ExtractError,
> {
    |i: int| link_of_match(matches[i])
}

/// The links that the matches of [`LINK_PATTERN`] give, in the order of
/// the matches.
pub open spec fn links_of_matches(matches: Seq<GroupsModel>) -> Result<Seq<LinkModel>, ExtractError> {
    collected(link_items(matches), matches.len())
}

/// The links that a text gives, in the order in which they stand in it.
pub open spec fn links_of_text(text: Seq<char>) -> Result<Seq<LinkModel>, ExtractError> {
    matched(LINK_PATTERN@, text, |m: Seq<GroupsModel>| links_of_matches(m))
}

/// The models of a list of links, in the same order.
pub open spec fn link_models(links: Seq<LLVMLocalTypeVariableDebugInfo>) -> Seq<LinkModel> {
    Seq::new(links.len(), |i: int| links[i]@)
}

/// Reads the links off the matches of [`LINK_PATTERN`].
pub fn links_from_captures(captures: &Captures) -> (r: Result<
    Vec<LLVMLocalTypeVariableDebugInfo>,
    ExtractError,
>)
    ensures
        match links_of_matches(captures.deep_view()) {
            Ok(links) => r is Ok && link_models(r->Ok_0@) == links,
            Err(e) => r == Err::<Vec<LLVMLocalTypeVariableDebugInfo>, ExtractError>(e),
        },
{
    let ghost matches = captures.deep_view();
    let mut debug_metadatas: Vec<LLVMLocalTypeVariableDebugInfo> = Vec::new();
    let mut i: usize = 0;
    assert(link_models(debug_metadatas@) =~= Seq::<LinkModel>::empty());
    while i < captures.len()
        invariant
            i <= captures.len(),
            matches == captures.deep_view(),
            collected(link_items(matches), i as nat) == Ok::<Seq<LinkModel>, ExtractError>(
                link_models(debug_metadatas@),
            ),
        decreases captures.len() - i,
    {
        let caps = &captures[i];
        assert(caps.deep_view() == matches[i as int]);
        let ghost before = link_models(debug_metadatas@);
        match (group(caps, 1), group(caps, 2), group(caps, 3)) {
            (Some(ty), Some(name), Some(tag)) if caps.len() == 4 => {
                let link = LLVMLocalTypeVariableDebugInfo {
                    local_var_type: ty.clone(),
                    local_var_name: name.clone(),
                    location_tag: tag.clone(),
                };
                debug_metadatas.push(link);
                assert(link_models(debug_metadatas@) =~= before.push(link@));
            },
            _ => {
                proof {
                    assert(link_items(matches)(i as int) is Err);
                    lemma_collected_failure(
                        link_items(matches),
                        (i + 1) as nat,
                        matches.len(),
                    );
                }
                return Err(ExtractError::MalformedMatch);
            },
        }
        i += 1;
    }
    Ok(debug_metadatas)
}

/// Reads every statement of the form
/// `@llvm.dbg.value(metadata %Tensor* %left, metadata !1323, metadata !DIExpression())`
/// from the text, in the order in which they stand in it.
pub fn extract_llvm_to_rust_metadata(file_as_string: &str) -> (r: Result<
    Vec<LLVMLocalTypeVariableDebugInfo>,
    ExtractError,
>)
    ensures
        match links_of_text(file_as_string@) {
            Ok(links) => r is Ok && link_models(r->Ok_0@) == links,
            Err(e) => r == Err::<Vec<LLVMLocalTypeVariableDebugInfo>, ExtractError>(e),
        },
{
    match captures_iter(LINK_PATTERN, file_as_string) {
        Ok(captures) => links_from_captures(&captures),
        Err(_) => Err(ExtractError::InvalidPattern),
    }
}

// ---------------------------------------------------------------------
// Parameters
// ---------------------------------------------------------------------

/// The parameter that one match of [`PARAMETER_PATTERN`] gives: its key
/// and its value.
pub open spec fn parameter_of_match(groups: GroupsModel) -> Result<
    (Seq<char>, Seq<char>),
    ExtractError,
> {
    if groups.len() > 2 && groups[1] is Some && groups[2] is Some {
        Ok((groups[1]->Some_0, groups[2]->Some_0))
    } else {
        Err(ExtractError::MalformedMatch)
    }
}

/// What each match of a list gives as a parameter.
pub open spec fn parameter_items(matches: Seq<GroupsModel>) -> spec_fn(int) -> Result<
    (Seq<char>, Seq<char>),
    ExtractError,
> {
    |i: int| parameter_of_match(matches[i])
}

/// The parameters that the matches of [`PARAMETER_PATTERN`] give. Where
/// a key stands twice, the later value stands.
pub open spec fn parameters_of_matches(matches: Seq<GroupsModel>) -> Result<
    Map<Seq<char>, Seq<char>>,
    ExtractError,
> {
    match collected(parameter_items(matches), matches.len()) {
        Ok(entries) => Ok(map_of_pairs(entries)),
        Err(e) => Err(e),
    }
}

/// The parameters in a list such as `tag: DW_TAG_member, baseType: !6`.
pub open spec fn parameters_of_text(text: Seq<char>) -> Result<
    Map<Seq<char>, Seq<char>>,
    ExtractError,
> {
    matched(PARAMETER_PATTERN@, text, |m: Seq<GroupsModel>| parameters_of_matches(m))
}

/// Reads the parameters off the matches of [`PARAMETER_PATTERN`].
pub fn parameters_from_captures(captures: &Captures) -> (r: Result<TextMap<String>, ExtractError>)
    ensures
        match parameters_of_matches(captures.deep_view()) {
            Ok(parameters) => r is Ok && r->Ok_0@ == parameters,
            Err(e) => r == Err::<TextMap<String>, ExtractError>(e),
        },
{
    let ghost matches = captures.deep_view();
    let ghost mut entries: Seq<(Seq<char>, Seq<char>)> = Seq::empty();
    let mut debug_metadatas: TextMap<String> = TextMap::new();
    let mut i: usize = 0;
    while i < captures.len()
        invariant
            i <= captures.len(),
            matches == captures.deep_view(),
            collected(parameter_items(matches), i as nat) == Ok::<
                Seq<(Seq<char>, Seq<char>)>,
                ExtractError,
            >(entries),
            debug_metadatas@ == map_of_pairs(entries),
        decreases captures.len() - i,
    {
        let caps = &captures[i];
        assert(caps.deep_view() == matches[i as int]);
        match (group(caps, 1), group(caps, 2)) {
            (Some(key), Some(value)) => {
                proof {
                    lemma_map_of_pairs_push(entries, key@, value@);
                    entries = entries.push((key@, value@));
                }
                debug_metadatas.insert(key.clone(), value.clone());
            },
            _ => {
                proof {
                    assert(parameter_items(matches)(i as int) is Err);
                    lemma_collected_failure(
                        parameter_items(matches),
                        (i + 1) as nat,
                        matches.len(),
                    );
                }
                return Err(ExtractError::MalformedMatch);
            },
        }
        i += 1;
    }
    Ok(debug_metadatas)
}

/// Turns a text such as `tag: DW_TAG_member, name: "buf", baseType: !6`
/// into the map with `tag` => `DW_TAG_member`, `name` => `"buf"` and
/// `baseType` => `!6`. A value ends at the next comma, whatever stands
/// around it.
pub fn get_all_params(input: &str) -> (r: Result<TextMap<String>, ExtractError>)
    ensures
        match parameters_of_text(input@) {
            Ok(parameters) => r is Ok && r->Ok_0@ == parameters,
            Err(e) => r == Err::<TextMap<String>, ExtractError>(e),
        },
{
    match captures_iter(PARAMETER_PATTERN, input) {
        Ok(captures) => parameters_from_captures(&captures),
        Err(_) => Err(ExtractError::InvalidPattern),
    }
}

// ---------------------------------------------------------------------
// Debug records
// ---------------------------------------------------------------------

/// The record that one match of [`RECORD_PATTERN`] gives: its tag, its
/// variant name, and the parameters in its third group.
pub open spec fn record_of_match(groups: GroupsModel) -> Result<RecordModel, ExtractError> {
    if groups.len() == 4 && groups[1] is Some && groups[2] is Some && groups[3] is Some {
        match parameters_of_text(groups[3]->Some_0) {
            Ok(parameters) => Ok(
                RecordModel {
                    location_tag: groups[1]->Some_0,
                    variant: groups[2]->Some_0,
                    parameters,
                },
            ),
            Err(e) => Err(e),
        }
    } else {
        Err(ExtractError::MalformedMatch)
    }
}

/// What each match of a list gives as a record.
pub open spec fn record_items(matches: Seq<GroupsModel>) -> spec_fn(int) -> Result<
    RecordModel,
    ExtractError,
> {
    |i: int| record_of_match(matches[i])
}

/// The records that the matches of [`RECORD_PATTERN`] give, in the order
/// of the matches.
pub open spec fn records_of_matches(matches: Seq<GroupsModel>) -> Result<
    Seq<RecordModel>,
    ExtractError,
> {
    collected(record_items(matches), matches.len())
}

/// The records that a text gives, in the order in which they stand in
/// it.
pub open spec fn records_of_text(text: Seq<char>) -> Result<Seq<RecordModel>, ExtractError> {
    matched(RECORD_PATTERN@, text, |m: Seq<GroupsModel>| records_of_matches(m))
}

/// Reads the records off the matches of [`RECORD_PATTERN`].
pub fn records_from_captures(captures: &Captures) -> (r: Result<
    Vec<LLVMDebugTypeInformation>,
    ExtractError,
>)
    ensures
        match records_of_matches(captures.deep_view()) {
            Ok(records) => r is Ok && record_models(r->Ok_0@) == records,
            Err(e) => r == Err::<Vec<LLVMDebugTypeInformation>, ExtractError>(e),
        },
{
    let ghost matches = captures.deep_view();
    let mut records: Vec<LLVMDebugTypeInformation> = Vec::new();
    let mut i: usize = 0;
    assert(record_models(records@) =~= Seq::<RecordModel>::empty());
    while i < captures.len()
        invariant
            i <= captures.len(),
            matches == captures.deep_view(),
            collected(record_items(matches), i as nat) == Ok::<Seq<RecordModel>, ExtractError>(
                record_models(records@),
            ),
        decreases captures.len() - i,
    {
        let caps = &captures[i];
        assert(caps.deep_view() == matches[i as int]);
        let ghost before = record_models(records@);
        match (group(caps, 1), group(caps, 2), group(caps, 3)) {
            (Some(tag), Some(variant), Some(list)) if caps.len() == 4 => {
                match get_all_params(list.as_str()) {
                    Ok(parameters) => {
                        let record = LLVMDebugTypeInformation {
                            location_tag: tag.clone(),
                            variant: variant.clone(),
                            parameters,
                        };
                        records.push(record);
                        assert(record_models(records@) =~= before.push(record@));
                    },
                    Err(e) => {
                        proof {
                            assert(record_items(matches)(i as int) is Err);
                            lemma_collected_failure(
                                record_items(matches),
                                (i + 1) as nat,
                                matches.len(),
                            );
                        }
                        return Err(e);
                    },
                }
            },
            _ => {
                proof {
                    assert(record_items(matches)(i as int) is Err);
                    lemma_collected_failure(
                        record_items(matches),
                        (i + 1) as nat,
                        matches.len(),
                    );
                }
                return Err(ExtractError::MalformedMatch);
            },
        }
        i += 1;
    }
    Ok(records)
}

/// Reads every record of the form
/// `!1298 = !DIDerivedType(tag: DW_TAG_pointer_type, baseType: !6)` from
/// the text, in the order in which they stand in it.
pub fn extract_rust_metadata(file_as_string: &str) -> (r: Result<
    Vec<LLVMDebugTypeInformation>,
    ExtractError,
>)
    ensures
        match records_of_text(file_as_string@) {
            Ok(records) => r is Ok && record_models(r->Ok_0@) == records,
            Err(e) => r == Err::<Vec<LLVMDebugTypeInformation>, ExtractError>(e),
        },
{
    match captures_iter(RECORD_PATTERN, file_as_string) {
        Ok(captures) => records_from_captures(&captures),
        Err(_) => Err(ExtractError::InvalidPattern),
    }
}

// ---------------------------------------------------------------------
// All of one file
// ---------------------------------------------------------------------

/// What one IR file holds: its records, the links from local values to
/// records, and the lists of tags.
#[derive(Debug)]
pub struct LLVMIRMetadata {
    pub multiple_tags_tag: TextMap<Vec<String>>,
    pub llvm_local_type_variable_debug_info: Vec<LLVMLocalTypeVariableDebugInfo>,
    pub llvm_debug_type_information: Vec<LLVMDebugTypeInformation>,
}

/// The model of [`LLVMIRMetadata`].
pub struct MetadataModel {
    pub multiple_tags_tag: Map<Seq<char>, Seq<Seq<char>>>,
    pub llvm_local_type_variable_debug_info: Seq<LinkModel>,
    pub llvm_debug_type_information: Seq<RecordModel>,
}

impl View for LLVMIRMetadata {
    type V = MetadataModel;

    open spec fn view(&self) -> MetadataModel {
        MetadataModel {
            multiple_tags_tag: self.multiple_tags_tag@,
            llvm_local_type_variable_debug_info: link_models(
                self.llvm_local_type_variable_debug_info@,
            ),
            llvm_debug_type_information: record_models(self.llvm_debug_type_information@),
        }
    }
}

/// What the text of an IR file holds: its links, its records and its
/// lists of tags, or the first failure met in reading them in that order.
pub open spec fn metadata_of_text(text: Seq<char>) -> Result<MetadataModel, ExtractError> {
    match links_of_text(text) {
        Err(e) => Err(e),
        Ok(links) => match records_of_text(text) {
            Err(e) => Err(e),
            Ok(records) => match tag_table_of_text(text) {
                Err(e) => Err(e),
                Ok(table) => Ok(
                    MetadataModel {
                        multiple_tags_tag: table,
                        llvm_local_type_variable_debug_info: links,
                        llvm_debug_type_information: records,
                    },
                ),
            },
        },
    }
}

impl LLVMIRMetadata {
    /// Reads all that the text of an IR file holds.
    pub fn new(file_as_string: &str) -> (r: Result<LLVMIRMetadata, ExtractError>)
        ensures
            match metadata_of_text(file_as_string@) {
                Ok(metadata) => r is Ok && r->Ok_0@ == metadata,
                Err(e) => r == Err::<LLVMIRMetadata, ExtractError>(e),
            },
    {
        let llvm_to_rust_metadata_link = match extract_llvm_to_rust_metadata(file_as_string) {
            Ok(links) => links,
            Err(e) => {
                return Err(e);
            },
        };
        let rust_metadata = match extract_rust_metadata(file_as_string) {
            Ok(records) => records,
            Err(e) => {
                return Err(e);
            },
        };
        let multi_tags_tag = match extract_llvm_multiple_tags_tag(file_as_string) {
            Ok(table) => table,
            Err(e) => {
                return Err(e);
            },
        };
        Ok(
            LLVMIRMetadata {
                multiple_tags_tag: multi_tags_tag,
                llvm_local_type_variable_debug_info: llvm_to_rust_metadata_link,
                llvm_debug_type_information: rust_metadata,
            },
        )
    }

    /// The first record with the location tag `tag`, if there is one.
    pub fn find_record(&self, tag: &str) -> (r: Option<LLVMDebugTypeInformation>)
        ensures
            match r {
                Some(rec) => find_record(tag@, self@.llvm_debug_type_information) == Some(rec@),
                None => find_record(tag@, self@.llvm_debug_type_information) is None,
            },
    {
        get_rust_debug_metadata(tag, self.llvm_debug_type_information.as_slice())
    }
}

} // verus!
