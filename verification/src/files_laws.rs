//! What making a private directory does to a file system.

use crate::fault::{OsFailure, OsKind};
use crate::files::{Making, Meta, Reply};
use vstd::prelude::*;

verus! {

/// What stands at a path.
pub enum Node {
    Missing,
    Directory { mode: u16 },
    File,
    LinkToDirectory,
    LinkElsewhere,
}

/// A path in a file system.
#[verifier::ext_equal]
pub struct Place {
    /// What stands at each part of the path, the outermost first and the path itself last.
    pub chain: Seq<Node>,
    /// The names in the directory at the path.
    pub names: Set<Seq<u8>>,
}

impl Node {
    /// Something can stand below this, or could once it is created.
    pub open spec fn can_hold(self) -> bool {
        self is Missing || self is Directory || self is LinkToDirectory
    }
}

impl Place {
    /// A path as file systems have them: nothing stands below what is missing.
    pub open spec fn is_path(self) -> bool {
        &&& self.chain.len() > 0
        &&& self.chain.last() is Missing ==> self.names == Set::<Seq<u8>>::empty()
        &&& forall|i: int, j: int|
            0 <= i < j < self.chain.len() && #[trigger] self.chain[i] is Missing
                ==> #[trigger] self.chain[j] is Missing
    }

    /// Every part of the path can hold something.
    pub open spec fn can_be_directory(self) -> bool {
        forall|i: int| 0 <= i < self.chain.len() ==> (#[trigger] self.chain[i]).can_hold()
    }

    /// The path once every missing part was created with `mode`.
    pub open spec fn created(self, mode: u16) -> Place {
        Place {
            chain: self.chain.map_values(
                |node: Node|
                    if node is Missing {
                        Node::Directory { mode }
                    } else {
                        node
                    },
            ),
            ..self
        }
    }

    /// What is seen at the path without following a link.
    pub open spec fn seen(self, failure: OsFailure) -> Reply {
        let last = self.chain.last();
        if last is Missing {
            Reply::Failed(failure)
        } else {
            Reply::Meta(
                Meta {
                    is_dir: last is Directory,
                    is_file: last is File,
                    is_symlink: last is LinkToDirectory || last is LinkElsewhere,
                    len: 0,
                },
            )
        }
    }
}

/// What a file system answers, and what it does. Creating a directory creates what is missing, with
/// `mode`, and succeeds where there is a directory already, also behind a link; it fails where
/// something else is in the way.
pub open spec fn honest_answer(
    making: Making,
    place: Place,
    mode: u16,
    failure: OsFailure,
) -> (Reply, Place) {
    match making {
        Making::Create => if place.can_be_directory() {
            (Reply::Done, place.created(mode))
        } else {
            (Reply::Failed(failure), place)
        },
        Making::Require => (place.seen(failure), place),
        _ => (Reply::Done, place),
    }
}

/// Making a directory on a file system, for so many questions.
pub open spec fn honest_making(
    making: Making,
    has_parent: bool,
    place: Place,
    mode: u16,
    failure: OsFailure,
    questions: nat,
) -> (Making, Place)
    decreases questions,
{
    if questions == 0 {
        (making, place)
    } else {
        let (reply, after) = honest_answer(making, place, mode, failure);
        honest_making(
            making.after(has_parent, reply),
            has_parent,
            after,
            mode,
            failure,
            (questions - 1) as nat,
        )
    }
}

/// Making a private directory succeeds where the path is a directory or is missing and nothing is in
/// the way. It is a directory, and no link, then; what was missing above it is there too, with the
/// mode of a new directory; what was there is as it was, with its mode and its names. Where the path
/// is a file or a link, or something is in the way above it, it fails, and what was there is as it
/// was.
pub proof fn law_private_directory_is_on_disk(
    has_parent: bool,
    place: Place,
    mode: u16,
    failure: OsFailure,
)
    requires
        place.is_path(),
    ensures
        ({
            let (made, after) = honest_making(Making::Create, has_parent, place, mode, failure, 4);
            let free = place.chain.last() is Missing || place.chain.last() is Directory;
            &&& made == Making::Done(Ok(())) <==> free && place.can_be_directory()
            &&& made matches Making::Done(_)
            &&& made == Making::Done(Ok(())) ==> after.chain.last() is Directory
            &&& after.names == place.names
            &&& after.chain.len() == place.chain.len()
            &&& forall|i: int|
                0 <= i < place.chain.len() ==> #[trigger] after.chain[i] == (if place.chain[i]
                    is Missing && made == Making::Done(Ok(())) {
                    Node::Directory { mode }
                } else {
                    place.chain[i]
                })
        }),
{
    reveal_with_fuel(honest_making, 5);
    let (made, after) = honest_making(Making::Create, has_parent, place, mode, failure, 4);
    let end = place.chain.len() - 1;
    assert(place.chain.last() == place.chain[end]);
    if place.can_be_directory() {
        let created = place.created(mode);
        assert(created.chain.last() == created.chain[end]);
        if !(place.chain[end] is Missing) {
            assert forall|i: int| 0 <= i < place.chain.len() implies !(
            #[trigger] place.chain[i] is Missing) by {
                if i < end && place.chain[i] is Missing {
                    assert(place.chain[end] is Missing);
                }
            }
            assert(created.chain =~= place.chain);
        }
    }
}

/// Making a private directory once more succeeds as well, and changes nothing.
pub proof fn law_private_directory_can_be_made_again(
    has_parent: bool,
    place: Place,
    mode: u16,
    failure: OsFailure,
)
    requires
        place.is_path(),
        honest_making(Making::Create, has_parent, place, mode, failure, 4).0 == Making::Done(
            Ok(()),
        ),
    ensures
        ({
            let after = honest_making(Making::Create, has_parent, place, mode, failure, 4).1;
            honest_making(Making::Create, has_parent, after, mode, failure, 4) == (
                Making::Done(Ok(())),
                after,
            )
        }),
{
    law_private_directory_is_on_disk(has_parent, place, mode, failure);
    let after = honest_making(Making::Create, has_parent, place, mode, failure, 4).1;
    assert(after.chain.last() == after.chain[after.chain.len() - 1]);
    law_private_directory_is_on_disk(has_parent, after, mode, failure);
    let again = honest_making(Making::Create, has_parent, after, mode, failure, 4).1;
    assert(again =~= after);
}

} // verus!
