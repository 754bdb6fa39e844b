//! DMA-BUF allocation for zero-copy capture.
//!
//! The compositor says which DRM device it wants buffers allocated on, and
//! which format/modifier pairs it can write.

use vstd::prelude::*;

use crate::text::{begins_with, chars_of, joined, starts_with, strings, text_of};

verus! {

/// Whether `DrmFourcc::try_from` knows a format.
pub uninterp spec fn known_fourcc(code: u32) -> bool;

/// `drm_fourcc::DrmFourcc::try_from`: whether a code is one of the formats that
/// are listed there.
#[verifier::external_body]
fn is_known_fourcc(code: u32) -> (r: bool)
    ensures
        r == known_fourcc(code),
{
    drm_fourcc::DrmFourcc::try_from(code).is_ok()
}

/// The format has no meaning.
#[derive(Debug, Clone, Copy, PartialEq, Eq, Structural)]
pub struct UnknownFourcc {
    pub code: u32,
}

/// How to ask for a buffer.
#[derive(Debug, Clone, Copy, PartialEq, Eq, Structural)]
pub enum Placement {
    /// No modifiers were offered: line after line.
    Linear,
    /// Whichever of the offered modifiers suits best.
    AnyOffered,
}

/// How to ask for a buffer, given whether its format has a meaning.
pub open spec fn placement_of(
    known: bool,
    format: u32,
    modifiers: Seq<u64>,
) -> Result<Placement, UnknownFourcc> {
    if !known {
        Err(UnknownFourcc { code: format })
    } else if modifiers.len() == 0 {
        Ok(Placement::Linear)
    } else {
        Ok(Placement::AnyOffered)
    }
}

/// How to ask for a buffer, given whether its format has a meaning.
pub fn placement(known: bool, format: u32, modifiers: &Vec<u64>) -> (r: Result<
    Placement,
    UnknownFourcc,
>)
    ensures
        r == placement_of(known, format, modifiers@),
{
    if !known {
        Err(UnknownFourcc { code: format })
    } else if modifiers.len() == 0 {
        Ok(Placement::Linear)
    } else {
        Ok(Placement::AnyOffered)
    }
}

/// How to ask for a buffer of the given format, or that there is no such
/// format.
pub fn allocate(format: u32, modifiers: &Vec<u64>) -> (r: Result<Placement, UnknownFourcc>)
    ensures
        r == placement_of(known_fourcc(format), format, modifiers@),
{
    placement(is_known_fourcc(format), format, modifiers)
}

/// A modifier as two words, the high one first.
pub fn modifier_words(modifier: u64) -> (r: (u32, u32))
    ensures
        r.0 * 0x1_0000_0000 + r.1 == modifier,
{
    ((modifier / 0x1_0000_0000) as u32, (modifier % 0x1_0000_0000) as u32)
}

// ------------------------------------------------------------- render node ---

/// An entry of `/dev/dri`: its name, and its device number where that could be
/// had.
#[derive(Debug)]
pub struct DriEntry {
    pub name: String,
    pub rdev: Option<u64>,
}

/// The first entry with the given device number, or the number of entries.
pub open spec fn entry_of(entries: Seq<DriEntry>, dev: u64) -> int
    decreases entries.len(),
{
    if entries.len() == 0 {
        0
    } else if entries[0].rdev == Some(dev) {
        0
    } else {
        1 + entry_of(entries.skip(1), dev)
    }
}

/// Where to find the render node of a device.
#[derive(Debug)]
pub enum RenderNode {
    /// No entry has the device number.
    NoMatch,
    /// This one.
    At(String),
    /// Beside the primary node of this name: one of the names in this
    /// directory.
    BesidePrimary { name: String, directory: String },
}

/// Whether a name is that of a render node.
pub open spec fn is_render_name(name: Seq<char>) -> bool {
    begins_with(name, "renderD"@)
}

fn has_render_name(name: &str) -> (r: bool)
    ensures
        r == is_render_name(name@),
{
    let cs = chars_of(name);
    let prefix = chars_of("renderD");
    starts_with(cs.as_slice(), prefix.as_slice())
}

/// Map a device number to a usable DRM node. The compositor may name either the
/// primary or the render node; the render node needs no DRM master and is the
/// one the encoder opens.
pub fn resolve_render_node(entries: &Vec<DriEntry>, dev: u64) -> (r: RenderNode)
    ensures
        entry_of(entries@, dev) == entries@.len() ==> r is NoMatch,
        entry_of(entries@, dev) < entries@.len() ==> {
            let name = entries@[entry_of(entries@, dev)].name@;
            if is_render_name(name) {
                r matches RenderNode::At(path) && path@ == "/dev/dri/"@ + name
            } else {
                r matches RenderNode::BesidePrimary { name: n, directory } && n@ == name
                    && directory@ == "/sys/class/drm/"@ + name + "/device/drm"@
            }
        },
{
    let mut i: usize = 0;
    assert(entries@.skip(0) =~= entries@);
    while i < entries.len() && entries[i].rdev != Some(dev)
        invariant
            i <= entries@.len(),
            entry_of(entries@, dev) == i + entry_of(entries@.skip(i as int), dev),
        decreases entries@.len() - i,
    {
        assert(entries@.skip(i as int).skip(1) =~= entries@.skip(i + 1));
        i += 1;
    }
    if i == entries.len() {
        return RenderNode::NoMatch;
    }
    let name = entries[i].name.as_str();
    if has_render_name(name) {
        return RenderNode::At(joined("/dev/dri/", name));
    }
    let mut directory = joined("/sys/class/drm/", name);
    directory.append("/device/drm");
    RenderNode::BesidePrimary { name: entries[i].name.clone(), directory }
}

/// The first render node among names.
pub open spec fn first_render(names: Seq<Seq<char>>) -> Option<Seq<char>>
    decreases names.len(),
{
    if names.len() == 0 {
        None
    } else if is_render_name(names[0]) {
        Some("/dev/dri/"@ + names[0])
    } else {
        first_render(names.skip(1))
    }
}

/// The render node beside a primary node, from the names in its directory.
pub fn sibling_render_node(names: &Vec<String>) -> (r: Option<String>)
    ensures
        text_of(r) == first_render(strings(names@)),
{
    let ghost all = strings(names@);
    let mut i: usize = 0;
    assert(all.skip(0) =~= all);
    while i < names.len()
        invariant
            i <= names@.len(),
            all == strings(names@),
            first_render(all) == first_render(all.skip(i as int)),
        decreases names@.len() - i,
    {
        assert(all.skip(i as int).skip(1) =~= all.skip(i + 1));
        assert(all.skip(i as int)[0] == names@[i as int]@);
        if has_render_name(names[i].as_str()) {
            return Some(joined("/dev/dri/", names[i].as_str()));
        }
        i += 1;
    }
    None
}

// -------------------------------------------------------------------- laws ---

/// The node of a device is the first entry with its number.
pub proof fn nodes_are_found_by_number(entries: Seq<DriEntry>, dev: u64)
    ensures
        0 <= entry_of(entries, dev) <= entries.len(),
        entry_of(entries, dev) < entries.len() ==> entries[entry_of(entries, dev)].rdev == Some(dev),
        forall|j: int| 0 <= j < entry_of(entries, dev) ==> (#[trigger] entries[j]).rdev != Some(dev),
    decreases entries.len(),
{
    if entries.len() > 0 && entries[0].rdev != Some(dev) {
        let rest = entries.skip(1);
        nodes_are_found_by_number(rest, dev);
        let p = entry_of(rest, dev);
        if p < rest.len() {
            assert(rest[p] == entries[p + 1]);
        }
        assert forall|j: int| 0 <= j < p + 1 implies (#[trigger] entries[j]).rdev != Some(dev) by {
            if j > 0 {
                assert(rest[j - 1] == entries[j]);
            }
        }
    }
}

/// Beside a primary node the first name that begins with `renderD` is the render
/// node, and there is none where no name does.
pub proof fn render_nodes_are_found_by_name(names: Seq<Seq<char>>, k: int)
    requires
        0 <= k <= names.len(),
        k < names.len() ==> begins_with(names[k], "renderD"@),
        forall|j: int| 0 <= j < k ==> !begins_with(#[trigger] names[j], "renderD"@),
    ensures
        k < names.len() ==> first_render(names) == Some("/dev/dri/"@ + names[k]),
        k == names.len() ==> first_render(names) is None,
    decreases k,
{
    if k > 0 {
        let rest = names.skip(1);
        if k < names.len() {
            assert(rest[k - 1] == names[k]);
        }
        assert forall|j: int| 0 <= j < k - 1 implies !begins_with(
            #[trigger] rest[j],
            "renderD"@,
        ) by {
            assert(rest[j] == names[j + 1]);
        }
        assert(!begins_with(names[0], "renderD"@));
        render_nodes_are_found_by_name(rest, k - 1);
    }
}

/// A buffer can be asked for in any format that has a meaning: line after line where
/// no modifier was offered, and by the offered ones where any were.
pub proof fn buffers_are_asked_for_by_modifier(known: bool, format: u32, modifiers: Seq<u64>)
    ensures
        placement_of(known, format, modifiers) is Ok <==> known,
        placement_of(known, format, modifiers) == Ok::<Placement, UnknownFourcc>(Placement::Linear)
            <==> known && modifiers.len() == 0,
        placement_of(known, format, modifiers) matches Err(e) ==> e.code == format,
{
}

} // verus!
