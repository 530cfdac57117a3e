//! Which drives are monitored, and under which paths they are opened.

use vstd::prelude::*;

verus! {

/// The number of drive letters.
pub const LETTERS: u32 = 26;

/// The drive type of a removable drive.
pub const DRIVE_REMOVABLE: u32 = 2;

/// The drive type of a fixed drive.
pub const DRIVE_FIXED: u32 = 3;

/// Whether the logical-drive bitmask `mask` holds the drive of index `index`
/// (0 for `A`, 25 for `Z`).
pub open spec fn drive_present(mask: u32, index: u32) -> bool {
    mask & (1u32 << index) != 0
}

/// The letter of the drive of index `index`.
pub open spec fn letter_of(index: int) -> u8 {
    (0x41 + index) as u8
}

/// The letters of the drives of index below `upto` that `mask` holds, in
/// ascending order.
pub open spec fn letters_below(mask: u32, upto: int) -> Seq<u8>
    decreases upto,
{
    if upto <= 0 {
        Seq::empty()
    } else if drive_present(mask, (upto - 1) as u32) {
        letters_below(mask, upto - 1).push(letter_of(upto - 1))
    } else {
        letters_below(mask, upto - 1)
    }
}

/// The letters of the drives that a logical-drive bitmask holds, from `A` to
/// `Z`.
pub fn present_letters(mask: u32) -> (letters: Vec<u8>)
    ensures
        letters@ == letters_below(mask, LETTERS as int),
{
    let mut letters: Vec<u8> = Vec::new();
    let mut index: u32 = 0;
    while index < LETTERS
        invariant
            index <= LETTERS,
            letters@ == letters_below(mask, index as int),
        decreases LETTERS - index,
    {
        if mask & (1u32 << index) != 0 {
            let offset: u8 = index as u8;
            letters.push(0x41 + offset);
        }
        index = index + 1;
    }
    letters
}

/// Each letter appears for a drive that the mask holds, and only for such a
/// drive; the letters ascend, so none appears twice.
pub proof fn lemma_letters_are_the_present_drives(mask: u32, upto: int)
    requires
        0 <= upto <= LETTERS,
    ensures
        letters_below(mask, upto).len() <= upto,
        forall|k: int|
            0 <= k < letters_below(mask, upto).len() ==> {
                let letter = #[trigger] letters_below(mask, upto)[k];
                0x41 <= letter < 0x41 + upto && drive_present(mask, (letter - 0x41) as u32)
            },
        forall|j: int, k: int|
            0 <= j < k < letters_below(mask, upto).len() ==> letters_below(mask, upto)[j]
                < letters_below(mask, upto)[k],
        forall|index: int|
            0 <= index < upto && drive_present(mask, index as u32) ==> letters_below(
                mask,
                upto,
            ).contains(#[trigger] letter_of(index)),
    decreases upto,
{
    if upto > 0 {
        lemma_letters_are_the_present_drives(mask, upto - 1);
        let before = letters_below(mask, upto - 1);
        let all = letters_below(mask, upto);
        if drive_present(mask, (upto - 1) as u32) {
            assert(all[all.len() - 1] == letter_of(upto - 1));
            assert forall|index: int|
                0 <= index < upto && drive_present(mask, index as u32) implies all.contains(
                #[trigger] letter_of(index),
            ) by {
                if index < upto - 1 {
                    let k = choose|k: int| 0 <= k < before.len() && before[k] == letter_of(index);
                    assert(all[k] == letter_of(index));
                }
            }
        }
    }
}

/// Whether a drive of this type is monitored: fixed and removable drives are.
pub open spec fn eligible_type(drive_type: u32) -> bool {
    drive_type == DRIVE_FIXED || drive_type == DRIVE_REMOVABLE
}

/// Whether a drive of this type is monitored.
pub fn type_is_eligible(drive_type: u32) -> (eligible: bool)
    ensures
        eligible == eligible_type(drive_type),
{
    drive_type == DRIVE_FIXED || drive_type == DRIVE_REMOVABLE
}

/// Whether `units` holds the four letters `NTFS` from index `start` on and
/// NUL everywhere else.
pub open spec fn padded_ntfs_at(units: Seq<u16>, start: int) -> bool {
    &&& 0 <= start
    &&& start + 4 <= units.len()
    &&& units[start] == 0x4E
    &&& units[start + 1] == 0x54
    &&& units[start + 2] == 0x46
    &&& units[start + 3] == 0x53
    &&& forall|i: int| 0 <= i < units.len() && !(start <= i < start + 4) ==> units[i] == 0
}

/// Whether a filesystem name, given as UTF-16 code units, is `NTFS` once the
/// NUL padding at its ends is taken away.
pub open spec fn names_ntfs(units: Seq<u16>) -> bool {
    exists|start: int| padded_ntfs_at(units, start)
}

/// Whether a filesystem name is exactly `NTFS`, NUL padding aside.
pub fn is_ntfs(fs_name: &[u16]) -> (ntfs: bool)
    ensures
        ntfs == names_ntfs(fs_name@),
{
    let n: usize = fs_name.len();
    let mut start: usize = 0;
    while start < n && fs_name[start] == 0
        invariant
            start <= n,
            n == fs_name@.len(),
            forall|i: int| 0 <= i < start ==> fs_name@[i] == 0,
        decreases n - start,
    {
        start = start + 1;
    }
    assert forall|other: int| other != start implies !padded_ntfs_at(fs_name@, other) by {
        if padded_ntfs_at(fs_name@, other) {
            if other < start {
                assert(fs_name@[other] == 0);
            } else {
                assert(fs_name@[start as int] == 0);
            }
        }
    }
    if n - start < 4 {
        return false;
    }
    if fs_name[start] != 0x4E || fs_name[start + 1] != 0x54 || fs_name[start + 2] != 0x46
        || fs_name[start + 3] != 0x53 {
        return false;
    }
    let mut i: usize = start + 4;
    while i < n
        invariant
            start + 4 <= i <= n,
            n == fs_name@.len(),
            forall|j: int| start + 4 <= j < i ==> fs_name@[j] == 0,
            forall|other: int| other != start ==> !padded_ntfs_at(fs_name@, other),
        decreases n - i,
    {
        if fs_name[i] != 0 {
            return false;
        }
        i = i + 1;
    }
    assert(padded_ntfs_at(fs_name@, start as int));
    true
}

/// Whether a drive is monitored: its type is fixed or removable and its
/// filesystem is NTFS.
pub fn is_eligible(drive_type: u32, fs_name: &[u16]) -> (eligible: bool)
    ensures
        eligible == (eligible_type(drive_type) && names_ntfs(fs_name@)),
{
    type_is_eligible(drive_type) && is_ntfs(fs_name)
}

/// The path of the root directory of a drive, as UTF-16 code units with the
/// NUL that ends it: the letter, `:`, `\`.
pub open spec fn root_units(letter: u8) -> Seq<u16> {
    seq![letter as u16, 0x3A, 0x5C, 0]
}

/// The root directory of a drive, as the queries on a drive take it.
pub fn root_path(letter: u8) -> (path: Vec<u16>)
    ensures
        path@ == root_units(letter),
{
    let mut path: Vec<u16> = Vec::new();
    path.push(letter as u16);
    path.push(0x3A);
    path.push(0x5C);
    path.push(0);
    assert(path@ =~= root_units(letter));
    path
}

/// The path under which the volume of a drive is opened: `\\.\`, the letter,
/// `:`.
pub open spec fn device_text(letter: u8) -> Seq<char> {
    seq!['\\', '\\', '.', '\\', letter as char, ':']
}

/// The path under which the volume of a drive is opened.
pub fn device_path(letter: u8) -> (path: String)
    ensures
        path@ == device_text(letter),
{
    let mut path = String::new();
    path.push('\\');
    path.push('\\');
    path.push('.');
    path.push('\\');
    path.push(letter as char);
    path.push(':');
    assert(path@ =~= device_text(letter));
    path
}

/// A drive that is monitored.
#[derive(Debug)]
pub struct Volume {
    /// The drive letter, an ASCII capital.
    pub letter: u8,
    /// The path under which the volume is opened.
    pub device_path: String,
}

impl Volume {
    /// The volume of the drive `letter`.
    pub fn new(letter: u8) -> (volume: Volume)
        ensures
            volume.letter == letter,
            volume.device_path@ == device_text(letter),
    {
        Volume { letter, device_path: device_path(letter) }
    }
}

/// What was learnt of one drive.
#[derive(Debug)]
pub struct DriveProbe {
    /// The drive letter, an ASCII capital.
    pub letter: u8,
    /// The type that the drive reported.
    pub drive_type: u32,
    /// The filesystem name that the drive reported, as UTF-16 code units with
    /// their padding; `None` where the query failed or was not made.
    pub fs_name: Option<Vec<u16>>,
}

/// Whether a probed drive is monitored: its type is fixed or removable, the
/// query for its filesystem name succeeded, and the name is NTFS.
pub open spec fn probe_eligible(probe: DriveProbe) -> bool {
    &&& eligible_type(probe.drive_type)
    &&& probe.fs_name is Some
    &&& names_ntfs(probe.fs_name->0@)
}

/// The letters of the eligible drives among `probes`, in the order of the
/// probes.
pub open spec fn selected_letters(probes: Seq<DriveProbe>) -> Seq<u8>
    decreases probes.len(),
{
    if probes.len() == 0 {
        Seq::empty()
    } else if probe_eligible(probes.last()) {
        selected_letters(probes.drop_last()).push(probes.last().letter)
    } else {
        selected_letters(probes.drop_last())
    }
}

/// The volumes to monitor: one for each eligible drive among `probes`, in
/// their order. A drive whose query failed is left out.
pub fn select_volumes(probes: &[DriveProbe]) -> (volumes: Vec<Volume>)
    ensures
        volumes@.len() == selected_letters(probes@).len(),
        forall|k: int|
            0 <= k < volumes@.len() ==> (#[trigger] volumes@[k]).letter == selected_letters(
                probes@,
            )[k],
        forall|k: int|
            0 <= k < volumes@.len() ==> (#[trigger] volumes@[k]).device_path@ == device_text(
                selected_letters(probes@)[k],
            ),
{
    let mut volumes: Vec<Volume> = Vec::new();
    let mut i: usize = 0;
    while i < probes.len()
        invariant
            i <= probes.len(),
            volumes@.len() == selected_letters(probes@.take(i as int)).len(),
            forall|k: int|
                0 <= k < volumes@.len() ==> (#[trigger] volumes@[k]).letter == selected_letters(
                    probes@.take(i as int),
                )[k],
            forall|k: int|
                0 <= k < volumes@.len() ==> (#[trigger] volumes@[k]).device_path@ == device_text(
                    selected_letters(probes@.take(i as int))[k],
                ),
        decreases probes.len() - i,
    {
        let probe = &probes[i];
        let eligible = type_is_eligible(probe.drive_type) && match &probe.fs_name {
            Some(name) => is_ntfs(name.as_slice()),
            None => false,
        };
        proof {
            let upto = probes@.take(i as int + 1);
            assert(upto.last() == probes@[i as int]);
            assert(upto.drop_last() =~= probes@.take(i as int));
            assert(eligible == probe_eligible(upto.last()));
        }
        if eligible {
            volumes.push(Volume::new(probe.letter));
        }
        i = i + 1;
    }
    assert(probes@.take(i as int) =~= probes@);
    volumes
}

/// Only eligible drives are selected, each once and in the order probed:
/// with no eligible drive nothing is selected, and a further probe adds its
/// letter at the end exactly if it is eligible.
pub proof fn lemma_selection_follows_probes(probes: Seq<DriveProbe>, next: DriveProbe)
    ensures
        selected_letters(Seq::<DriveProbe>::empty()) == Seq::<u8>::empty(),
        probe_eligible(next) ==> selected_letters(probes.push(next)) == selected_letters(
            probes,
        ).push(next.letter),
        !probe_eligible(next) ==> selected_letters(probes.push(next)) == selected_letters(probes),
        selected_letters(probes).len() <= probes.len(),
    decreases probes.len(),
{
    assert(probes.push(next).drop_last() =~= probes);
    assert(probes.push(next).last() == next);
    if probes.len() > 0 {
        lemma_selection_follows_probes(probes.drop_last(), probes.last());
    }
}

} // verus!
