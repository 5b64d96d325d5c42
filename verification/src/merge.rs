//! The folder merge: which folders are reserved, which parents are merged,
//! and what is done with each of them.
//!
//! The walk over the tree and the copying are done by the caller. This
//! module decides: it is told what the caller found and answers what to
//! do.

use crate::text::{same_text, to_chars};
use crate::walk::EntryKind;
use vstd::prelude::*;
use vstd::string::StringExecFns;

verus! {

/// The name of the folder for what is kept private.
pub open spec fn private_name() -> Seq<char> {
    "private"@
}

/// The name of the folder for what is made public.
pub open spec fn public_name() -> Seq<char> {
    "public"@
}

/// The name of the folder that the reserved folders are merged into.
pub open spec fn merged_name() -> Seq<char> {
    "src"@
}

/// Whether a folder of this name is merged.
pub open spec fn is_reserved(name: Seq<char>) -> bool {
    name == private_name() || name == public_name()
}

/// One of the two reserved folders.
#[derive(Clone, Copy, Debug, PartialEq, Eq, Structural)]
pub enum Reserved {
    Private,
    Public,
}

impl Reserved {
    /// The name of the folder.
    pub open spec fn name_text(self) -> Seq<char> {
        match self {
            Reserved::Private => private_name(),
            Reserved::Public => public_name(),
        }
    }

    /// The name of the folder.
    pub fn name(&self) -> (name: &'static str)
        ensures
            name@ == self.name_text(),
    {
        match self {
            Reserved::Private => "private",
            Reserved::Public => "public",
        }
    }
}

/// What stands at a path.
#[derive(Clone, Copy, Debug, PartialEq, Eq, Structural)]
pub enum Presence {
    /// Nothing.
    Missing,
    /// A directory.
    Directory,
    /// Something that is no directory.
    NotDirectory,
}

/// What stands at a path, from what the file system says of it.
pub open spec fn presence_of(exists: bool, is_directory: bool) -> Presence {
    if !exists {
        Presence::Missing
    } else if is_directory {
        Presence::Directory
    } else {
        Presence::NotDirectory
    }
}

/// What is done with one parent: the reserved folders whose contents are
/// copied into the merged folder, in this order, and which of the two are
/// removed afterwards.
#[derive(Debug, PartialEq, Eq)]
pub struct MergePlan {
    pub sources: Vec<Reserved>,
    pub remove_private: bool,
    pub remove_public: bool,
}

/// The reserved folders of a parent that are copied: each one that is a
/// directory, the private one first.
pub open spec fn sources_of(private: Presence, public: Presence) -> Seq<Reserved> {
    (if private is Directory {
        seq![Reserved::Private]
    } else {
        Seq::empty()
    }) + (if public is Directory {
        seq![Reserved::Public]
    } else {
        Seq::empty()
    })
}

/// Whether a parent is merged: it was not merged before, and one of its
/// reserved folders is a directory.
pub open spec fn is_merged(
    processed: Set<Seq<char>>,
    parent: Seq<char>,
    private: Presence,
    public: Presence,
) -> bool {
    !processed.contains(parent) && sources_of(private, public).len() > 0
}

/// Whether `plan` is what is done with a parent that is merged: every
/// reserved folder that is a directory is copied, and whatever stands under
/// a reserved name is removed.
pub open spec fn is_plan_of(plan: MergePlan, private: Presence, public: Presence) -> bool {
    &&& plan.sources@ == sources_of(private, public)
    &&& plan.remove_private == !(private is Missing)
    &&& plan.remove_public == !(public is Missing)
}

/// What is done with an entry of a folder that is copied into another.
#[derive(Clone, Copy, Debug, PartialEq, Eq, Structural)]
pub enum CombineStep {
    /// Merge the directory into the one of the same name at the
    /// destination.
    Descend,
    /// Make the destination folder and copy the entry into it under its
    /// own name, over what may stand there.
    CopyFile,
}

/// What is done with an entry of a folder that is copied: a directory is
/// merged, anything else is copied.
pub open spec fn combine_step_of(kind: EntryKind) -> CombineStep {
    if kind is Directory {
        CombineStep::Descend
    } else {
        CombineStep::CopyFile
    }
}

/// What stands at a path, from what the file system says of it.
pub fn presence(exists: bool, is_directory: bool) -> (r: Presence)
    ensures
        r == presence_of(exists, is_directory),
{
    if !exists {
        Presence::Missing
    } else if is_directory {
        Presence::Directory
    } else {
        Presence::NotDirectory
    }
}

/// Whether a folder of this name is merged.
pub fn reserved_folder(name: &str) -> (r: bool)
    ensures
        r == is_reserved(name@),
{
    let chars = to_chars(name);
    let private = to_chars(Reserved::Private.name());
    let public = to_chars(Reserved::Public.name());
    same_text(&chars, &private) || same_text(&chars, &public)
}

/// The name of the folder that the reserved folders are merged into.
pub fn merged_folder_name() -> (name: &'static str)
    ensures
        name@ == merged_name(),
{
    "src"
}

/// What is done with an entry of a folder that is copied.
pub fn combine_step(kind: EntryKind) -> (step: CombineStep)
    ensures
        step == combine_step_of(kind),
{
    match kind {
        EntryKind::Directory => CombineStep::Descend,
        _ => CombineStep::CopyFile,
    }
}

/// The parents that were merged so far. No parent is merged twice.
#[derive(Debug, PartialEq, Eq)]
pub struct MergeTracker {
    processed: Vec<String>,
}

impl View for MergeTracker {
    type V = Set<Seq<char>>;

    closed spec fn view(&self) -> Set<Seq<char>> {
        Set::new(
            |parent: Seq<char>|
                exists|i: int| 0 <= i < self.processed@.len() && self.processed@[i]@ == parent,
        )
    }
}

impl MergeTracker {
    /// The tracker of a merge that has merged nothing yet.
    pub fn new() -> (tracker: MergeTracker)
        ensures
            tracker@ == Set::<Seq<char>>::empty(),
    {
        let tracker = MergeTracker { processed: Vec::new() };
        assert(tracker@ =~= Set::<Seq<char>>::empty());
        tracker
    }

    /// Whether `parent` was merged.
    pub fn is_processed(&self, parent: &str) -> (r: bool)
        ensures
            r == self@.contains(parent@),
    {
        let wanted = to_chars(parent);
        let mut i: usize = 0;
        while i < self.processed.len()
            invariant
                i <= self.processed.len(),
                wanted@ == parent@,
                forall|j: int| 0 <= j < i ==> self.processed@[j]@ != parent@,
            decreases self.processed.len() - i,
        {
            let held = to_chars(self.processed[i].as_str());
            if same_text(&held, &wanted) {
                return true;
            }
            i += 1;
        }
        false
    }

    /// Decides what is done with the parent of a reserved folder that the
    /// walk has met, given what stands under the two reserved names in it.
    ///
    /// A parent that was merged before, or in which neither reserved name
    /// is a directory, is passed over. Any other parent is merged, and is
    /// from then on known as merged.
    pub fn plan(&mut self, parent: &str, private: Presence, public: Presence) -> (r: Option<
        MergePlan,
    >)
        ensures
            r is Some == is_merged(old(self)@, parent@, private, public),
            r matches Some(plan) ==> is_plan_of(plan, private, public),
            final(self)@ == if r is Some {
                old(self)@.insert(parent@)
            } else {
                old(self)@
            },
    {
        if self.is_processed(parent) {
            return None;
        }
        let mut sources: Vec<Reserved> = Vec::new();
        if private == Presence::Directory {
            sources.push(Reserved::Private);
        }
        if public == Presence::Directory {
            sources.push(Reserved::Public);
        }
        assert(sources@ == sources_of(private, public));
        if sources.len() == 0 {
            return None;
        }
        self.processed.push(String::from_str(parent));
        proof {
            let before = old(self).processed@;
            let after = self.processed@;
            assert(after[after.len() - 1]@ == parent@);
            assert forall|p: Seq<char>| self@.contains(p) == old(self)@.insert(parent@).contains(
                p,
            ) by {
                if old(self)@.contains(p) {
                    let i = choose|i: int| 0 <= i < before.len() && before[i]@ == p;
                    assert(after[i]@ == p);
                }
                if self@.contains(p) {
                    let i = choose|i: int| 0 <= i < after.len() && after[i]@ == p;
                    if i < before.len() {
                        assert(before[i]@ == p);
                    }
                }
            }
            assert(self@ =~= old(self)@.insert(parent@));
        }
        Some(
            MergePlan {
                sources,
                remove_private: private != Presence::Missing,
                remove_public: public != Presence::Missing,
            },
        )
    }
}

/// No parent is merged twice: once a parent was merged, it is passed over,
/// whatever stands in it.
pub proof fn lemma_parent_merged_once(
    processed: Set<Seq<char>>,
    parent: Seq<char>,
    private: Presence,
    public: Presence,
    later_private: Presence,
    later_public: Presence,
)
    requires
        is_merged(processed, parent, private, public),
    ensures
        !is_merged(processed.insert(parent), parent, later_private, later_public),
{
}

} // verus!
