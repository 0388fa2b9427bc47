//! Free-form labels on transactions.

use vstd::prelude::*;
use vstd::std_specs::cmp::PartialEqSpecImpl;

verus! {

/// A label that a transaction carries, with the colour it is shown in.
#[derive(Debug)]
pub struct Tag {
    pub label: String,
    pub color: Option<String>,
}

/// What a `Tag` stands for in contracts.
pub ghost struct TagView {
    pub label: Seq<char>,
    pub color: Option<Seq<char>>,
}

/// The view of an optional text.
pub open spec fn optional_text_view(text: Option<String>) -> Option<Seq<char>> {
    match text {
        Some(text) => Some(text@),
        None => None,
    }
}

/// A copy of an optional text.
pub fn clone_optional_text(text: &Option<String>) -> (r: Option<String>)
    ensures
        optional_text_view(r) == optional_text_view(*text),
{
    match text {
        Some(text) => Some(text.clone()),
        None => None,
    }
}

impl View for Tag {
    type V = TagView;

    open spec fn view(&self) -> TagView {
        TagView { label: self.label@, color: optional_text_view(self.color) }
    }
}

impl Clone for Tag {
    fn clone(&self) -> (r: Self)
        ensures
            r@ == self@,
    {
        Tag { label: self.label.clone(), color: clone_optional_text(&self.color) }
    }
}

/// Two tags are equal when their labels are; the colour does not count.
impl PartialEq for Tag {
    fn eq(&self, other: &Self) -> (r: bool) {
        self.label == other.label
    }
}

impl PartialEqSpecImpl for Tag {
    open spec fn obeys_eq_spec() -> bool {
        true
    }

    open spec fn eq_spec(&self, other: &Self) -> bool {
        self.label@ == other.label@
    }
}

/// The views of a run of tags, in order.
pub open spec fn tag_views(tags: Seq<Tag>) -> Seq<TagView> {
    tags.map_values(|t: Tag| t@)
}

/// Whether one of the tags carries `label`.
pub open spec fn has_label(tags: Seq<TagView>, label: Seq<char>) -> bool {
    exists|i: int| 0 <= i < tags.len() && (#[trigger] tags[i]).label == label
}

/// A copy of a run of tags.
pub fn clone_tags(tags: &Vec<Tag>) -> (r: Vec<Tag>)
    ensures
        tag_views(r@) == tag_views(tags@),
{
    let mut out: Vec<Tag> = Vec::new();
    let mut i: usize = 0;
    while i < tags.len()
        invariant
            i <= tags.len(),
            out.len() == i,
            forall|j: int| 0 <= j < i ==> (#[trigger] out@[j])@ == tags@[j]@,
        decreases tags.len() - i,
    {
        out.push(tags[i].clone());
        i += 1;
    }
    assert(tag_views(out@) =~= tag_views(tags@));
    out
}

/// Whether one of `tags` carries `label`.
pub fn tags_have_label(tags: &Vec<Tag>, label: &String) -> (r: bool)
    ensures
        r == has_label(tag_views(tags@), label@),
{
    let mut i: usize = 0;
    while i < tags.len()
        invariant
            i <= tags.len(),
            forall|j: int| 0 <= j < i ==> (#[trigger] tag_views(tags@)[j]).label != label@,
        decreases tags.len() - i,
    {
        if tags[i].label == *label {
            assert(tag_views(tags@)[i as int].label == label@);
            return true;
        }
        i += 1;
    }
    false
}

} // verus!
