//! The restricted provider: the gating policy for each filesystem operation,
//! and the trimming of hidden entries from directory listings.
//!
//! The provider itself performs no I/O. For every operation it classifies the
//! requested path and answers with a [`Decision`]; the protocol plumbing then
//! either forwards the call to the underlying filesystem unchanged, forwards
//! it and filters the resulting entry stream with [`entry_name_visible`], or
//! fails with a not-found error without touching the underlying filesystem.

use vstd::prelude::*;

use crate::path::{is_path_visible, path_visible, FsPath, PathComponent};

verus! {

/// What a gated operation must do with the underlying filesystem provider.
#[derive(Clone, Copy, Debug, PartialEq, Eq, Structural)]
pub enum Decision {
    /// Forward the call unchanged and return its result verbatim.
    Delegate,
    /// Forward the call, then drop hidden entries from the returned listing.
    DelegateFiltered,
    /// Do not touch the delegate; fail with a not-found error.
    NotFound,
}

/// The decision for `open`, `metadata` and `symlink_metadata`: pass the call
/// through unless hiding is active and the path is hidden.
pub open spec fn access_decision(allow_hidden: bool, p: Seq<PathComponent>) -> Decision {
    if allow_hidden || path_visible(p) {
        Decision::Delegate
    } else {
        Decision::NotFound
    }
}

/// The decision for `read_dir`: pass the call through untouched when hiding
/// is off; otherwise list only visible directories, and trim their entries.
pub open spec fn listing_decision(allow_hidden: bool, p: Seq<PathComponent>) -> Decision {
    if allow_hidden {
        Decision::Delegate
    } else if path_visible(p) {
        Decision::DelegateFiltered
    } else {
        Decision::NotFound
    }
}

/// The filtering layer's configuration: whether hidden paths are allowed
/// through. Set once at construction and immutable thereafter; the provider
/// holds no other state.
#[derive(Clone, Copy)]
pub struct RestrictedFs {
    pub allow_hidden: bool,
}

impl RestrictedFs {
    /// Builds the filtering layer; with `allow_hidden` set it becomes a
    /// transparent pass-through.
    pub fn new(allow_hidden: bool) -> (fs: RestrictedFs)
        ensures
            fs.allow_hidden == allow_hidden,
    {
        RestrictedFs { allow_hidden }
    }

    /// Gates `open`: delegate exactly when hiding is off or `path` is
    /// visible, otherwise answer not-found.
    pub fn open_decision(&self, path: &FsPath) -> (d: Decision)
        ensures
            d == access_decision(self.allow_hidden, path@),
    {
        if self.allow_hidden || is_path_visible(path) {
            Decision::Delegate
        } else {
            Decision::NotFound
        }
    }

    /// Gates `read_dir`: delegate unchanged when hiding is off; delegate and
    /// trim hidden entries when the directory itself is visible; otherwise
    /// answer not-found.
    pub fn read_dir_decision(&self, path: &FsPath) -> (d: Decision)
        ensures
            d == listing_decision(self.allow_hidden, path@),
    {
        if self.allow_hidden {
            Decision::Delegate
        } else if is_path_visible(path) {
            Decision::DelegateFiltered
        } else {
            Decision::NotFound
        }
    }

    /// Gates `metadata`: same rule as `open`.
    pub fn metadata_decision(&self, path: &FsPath) -> (d: Decision)
        ensures
            d == access_decision(self.allow_hidden, path@),
    {
        if self.allow_hidden || is_path_visible(path) {
            Decision::Delegate
        } else {
            Decision::NotFound
        }
    }

    /// Gates `symlink_metadata`: same rule as `open`.
    pub fn symlink_metadata_decision(&self, path: &FsPath) -> (d: Decision)
        ensures
            d == access_decision(self.allow_hidden, path@),
    {
        if self.allow_hidden || is_path_visible(path) {
            Decision::Delegate
        } else {
            Decision::NotFound
        }
    }
}

/// The byte value of the character `.`.
pub const DOT_BYTE: u8 = 46;

/// A directory entry is hidden exactly when its name (a byte sequence) starts
/// with a `.` byte.
pub open spec fn entry_name_hidden(name: Seq<u8>) -> bool {
    name.len() > 0 && name[0] == DOT_BYTE
}

/// The visible part of a listing: the hidden entries dropped, the surviving
/// ones kept in their original relative order.
pub open spec fn visible_entries(names: Seq<Seq<u8>>) -> Seq<Seq<u8>>
    decreases names.len(),
{
    if names.len() == 0 {
        Seq::empty()
    } else {
        let rest = visible_entries(names.drop_last());
        if entry_name_hidden(names.last()) {
            rest
        } else {
            rest.push(names.last())
        }
    }
}

/// Law: with `allow_hidden` set the layer is a transparent pass-through:
/// every operation delegates unchanged, whatever the path, so the observed
/// result is the underlying provider's own.
pub proof fn lemma_pass_through(fs: RestrictedFs, p: Seq<PathComponent>)
    requires
        fs.allow_hidden,
    ensures
        access_decision(fs.allow_hidden, p) == Decision::Delegate,
        listing_decision(fs.allow_hidden, p) == Decision::Delegate,
{
}

/// Law: a trimmed listing carries no hidden entry.
pub proof fn lemma_visible_entries_not_hidden(names: Seq<Seq<u8>>, i: int)
    requires
        0 <= i < visible_entries(names).len(),
    ensures
        !entry_name_hidden(visible_entries(names)[i]),
    decreases names.len(),
{
    if names.len() > 0 {
        if i < visible_entries(names.drop_last()).len() {
            lemma_visible_entries_not_hidden(names.drop_last(), i);
        }
    }
}

/// Law: a trimmed listing keeps every visible entry of the original listing.
pub proof fn lemma_visible_entries_keep(names: Seq<Seq<u8>>, i: int)
    requires
        0 <= i < names.len(),
        !entry_name_hidden(names[i]),
    ensures
        visible_entries(names).contains(names[i]),
    decreases names.len(),
{
    if names.len() > 0 {
        if i < names.len() - 1 {
            lemma_visible_entries_keep(names.drop_last(), i);
            let sub = visible_entries(names.drop_last());
            let j = choose|j: int| 0 <= j < sub.len() && sub[j] == names.drop_last()[i];
            assert(visible_entries(names)[j] == names[i]);
        } else {
            let res = visible_entries(names);
            assert(res[res.len() - 1] == names[i]);
        }
    }
}

/// The per-entry check used while trimming a listing: keep `name` exactly
/// when it does not start with a `.` byte.
pub fn entry_name_visible(name: &Vec<u8>) -> (r: bool)
    ensures
        r == !entry_name_hidden(name@),
{
    if name.len() == 0 {
        true
    } else {
        name[0] != DOT_BYTE
    }
}

/// Trims a materialized listing: the result holds exactly the entries whose
/// names do not start with a `.` byte, in their original relative order.
pub fn filter_entry_names(names: &Vec<Vec<u8>>) -> (r: Vec<Vec<u8>>)
    ensures
        r.deep_view() == visible_entries(names.deep_view()),
{
    let ghost all = names.deep_view();
    let mut out: Vec<Vec<u8>> = Vec::new();
    let len = names.len();
    let mut i: usize = 0;
    proof {
        assert(all.take(0) =~= Seq::<Seq<u8>>::empty());
        assert(out.deep_view() =~= visible_entries(all.take(0)));
    }
    while i < len
        invariant
            len == names@.len(),
            all == names.deep_view(),
            0 <= i <= len,
            out.deep_view() == visible_entries(all.take(i as int)),
        decreases len - i,
    {
        let ghost prev = out.deep_view();
        if entry_name_visible(&names[i]) {
            let entry = names[i].clone();
            proof {
                assert(entry@ =~= names@[i as int]@);
                assert(entry.deep_view() =~= all[i as int]);
            }
            out.push(entry);
            proof {
                assert(out.deep_view() =~= prev.push(all[i as int]));
            }
        }
        proof {
            let taken = all.take(i as int + 1);
            assert(taken.drop_last() =~= all.take(i as int));
            assert(taken.last() == all[i as int]);
            assert(out.deep_view() =~= visible_entries(taken));
        }
        i = i + 1;
    }
    proof {
        assert(all.take(len as int) =~= all);
    }
    out
}

} // verus!
