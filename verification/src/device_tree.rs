//! A walker over a flattened device tree.
//!
//! The blob is a byte slice. Its struct block is a stream of big-endian
//! 32-bit tokens, each on a 4-byte boundary; the model of the stream is a
//! handful of spec functions on `Seq<u8>`, and the walker's contracts say
//! which nodes and properties of that model each call yields.

use vstd::prelude::*;
use vstd::string::StringSliceAdditionalSpecFns;
use crate::text::{bytes_eq, lemma_span_skip, scan_until, span, split};
use crate::utils::{swap32, Big, Endian};

verus! {

/// Opens a node; a NUL-terminated name follows, padded to 4 bytes.
pub const BEGIN_NODE: u32 = 1;

/// Closes the node opened last.
pub const END_NODE: u32 = 2;

/// A property: value length, offset of the name in the strings block, value.
pub const PROP: u32 = 3;

/// Filler.
pub const NOP: u32 = 4;

/// Ends the struct block.
pub const END: u32 = 9;

/// Size of the fixed header: ten big-endian words.
pub const HEADER_LEN: usize = 40;

/// Why a blob is not a device tree this walker can walk.
#[derive(Clone, Copy, Debug, PartialEq, Eq, Structural)]
pub enum FdtError {
    /// The header is cut short, or points outside the blob or off a 4-byte boundary.
    BadHeader,
    /// The token at `offset`, its name or its value runs past the end of the blob.
    Truncated { offset: usize },
    /// The word at `offset` is no token.
    UnknownToken { offset: usize },
}

/// The big-endian 32-bit number at `off`.
pub open spec fn be32(s: Seq<u8>, off: int) -> int {
    s[off] as int * 0x100_0000 + s[off + 1] as int * 0x1_0000 + s[off + 2] as int * 0x100 + s[off
        + 3] as int
}

/// `x` rounded up to a multiple of 4.
pub open spec fn align4(x: int) -> int {
    (x + 3) / 4 * 4
}

/// Number of bytes from `off` up to the first NUL, or up to the end of `s`.
pub open spec fn str_len(s: Seq<u8>, off: int) -> nat {
    span(s, off, 0)
}

/// A NUL ends the string that starts at `off`.
pub open spec fn terminated(s: Seq<u8>, off: int) -> bool {
    0 <= off && off + str_len(s, off) < s.len()
}

/// The string that starts at `off`, without its NUL.
pub open spec fn str_at(s: Seq<u8>, off: int) -> Seq<u8> {
    s.subrange(off, off + str_len(s, off))
}

/// Where the token after the one at `off` starts.
pub open spec fn token_end(s: Seq<u8>, off: int) -> int {
    let t = be32(s, off);
    if t == BEGIN_NODE {
        align4(off + 4 + str_len(s, off + 4) + 1)
    } else if t == PROP {
        align4(off + 12 + be32(s, off + 4))
    } else {
        off + 4
    }
}

/// What is wrong with the token at `off`, if anything. `strings` is the offset
/// of the strings block.
pub open spec fn token_fault(s: Seq<u8>, strings: int, off: int) -> Option<FdtError> {
    if off + 4 > s.len() {
        Some(FdtError::Truncated { offset: off as usize })
    } else {
        let t = be32(s, off);
        if t == BEGIN_NODE {
            if terminated(s, off + 4) {
                None
            } else {
                Some(FdtError::Truncated { offset: off as usize })
            }
        } else if t == PROP {
            if off + 12 <= s.len() && off + 12 + be32(s, off + 4) <= s.len() && terminated(
                s,
                strings + be32(s, off + 8),
            ) {
                None
            } else {
                Some(FdtError::Truncated { offset: off as usize })
            }
        } else if t == END_NODE || t == NOP || t == END {
            None
        } else {
            Some(FdtError::UnknownToken { offset: off as usize })
        }
    }
}

/// How far a walk from `off` can still go; the measure of every recursion here.
pub open spec fn room(s: Seq<u8>, off: int) -> nat {
    if 0 <= off && off + 4 <= s.len() {
        (s.len() + 4 - off) as nat
    } else {
        0
    }
}

/// The first fault met on the way from `off` to the END token, if any.
pub open spec fn chain_fault(s: Seq<u8>, strings: int, off: int) -> Option<FdtError>
    decreases room(s, off),
{
    match token_fault(s, strings, off) {
        Some(e) => Some(e),
        None => if off < 0 || be32(s, off) == END {
            None
        } else {
            chain_fault(s, strings, token_end(s, off))
        },
    }
}

/// Every token from `off` to the END token is known and lies inside the blob.
pub open spec fn chain_ok(s: Seq<u8>, strings: int, off: int) -> bool {
    0 <= off && off % 4 == 0 && 0 <= strings <= s.len() && s.len() + 16 <= usize::MAX
        && chain_fault(s, strings, off) is None
}

/// What is wrong with the header of `s`, or with its struct block.
pub open spec fn blob_fault(s: Seq<u8>) -> Option<FdtError> {
    if s.len() < HEADER_LEN || s.len() + 16 > usize::MAX || be32(s, 8) % 4 != 0 || be32(s, 8)
        > s.len() || be32(s, 12) > s.len() {
        Some(FdtError::BadHeader)
    } else {
        chain_fault(s, be32(s, 12), be32(s, 8))
    }
}

/// A property as the walker hands it out.
pub struct PropView {
    pub name: Seq<u8>,
    pub value: Seq<u8>,
}

/// The property whose token is at `off`.
pub open spec fn prop_at(s: Seq<u8>, strings: int, off: int) -> PropView {
    PropView {
        name: str_at(s, strings + be32(s, off + 8)),
        value: s.subrange(off + 12, off + 12 + be32(s, off + 4)),
    }
}

/// The properties found from `off` on: the PROP tokens, NOPs skipped, up to
/// the first token of another kind.
pub open spec fn props_at(s: Seq<u8>, strings: int, off: int) -> Seq<PropView>
    decreases room(s, off),
{
    if room(s, off) == 0 {
        Seq::empty()
    } else if be32(s, off) == NOP {
        props_at(s, strings, off + 4)
    } else if be32(s, off) == PROP {
        seq![prop_at(s, strings, off)] + props_at(s, strings, token_end(s, off))
    } else {
        Seq::empty()
    }
}

/// A node as the walker hands it out: its name, its depth below the blob
/// (the root has depth 1) and the offset of the first token of its body.
pub struct NodeView {
    pub name: Seq<u8>,
    pub depth: nat,
    pub body: int,
}

/// The node whose BEGIN_NODE token is at `off`.
pub open spec fn node_at(s: Seq<u8>, off: int, depth: nat) -> NodeView {
    NodeView { name: str_at(s, off + 4), depth, body: token_end(s, off) }
}

/// The nodes that a walk from `off` yields when it is `nest` levels below the
/// node whose children it lists: each BEGIN_NODE met at level 0, up to the
/// END_NODE met at level 0 or the END token. Each gets the depth `depth`.
pub open spec fn children_at(s: Seq<u8>, off: int, nest: nat, depth: nat) -> Seq<NodeView>
    decreases room(s, off),
{
    if room(s, off) == 0 {
        Seq::empty()
    } else if be32(s, off) == BEGIN_NODE {
        let rest = children_at(s, token_end(s, off), nest + 1, depth);
        if nest == 0 {
            seq![node_at(s, off, depth)] + rest
        } else {
            rest
        }
    } else if be32(s, off) == END_NODE {
        if nest == 0 {
            Seq::empty()
        } else {
            children_at(s, off + 4, (nest - 1) as nat, depth)
        }
    } else if be32(s, off) == PROP || be32(s, off) == NOP {
        children_at(s, token_end(s, off), nest, depth)
    } else {
        Seq::empty()
    }
}

/// Where the body that starts at `off`, `nest` levels below the node in
/// question, is closed: the offset just behind the END_NODE that brings the
/// nesting below 0. Without such a token, where the walk stops.
pub open spec fn body_end(s: Seq<u8>, off: int, nest: nat) -> int
    decreases room(s, off),
{
    if room(s, off) == 0 {
        off
    } else if be32(s, off) == BEGIN_NODE {
        body_end(s, token_end(s, off), nest + 1)
    } else if be32(s, off) == END_NODE {
        if nest == 0 {
            off + 4
        } else {
            body_end(s, off + 4, (nest - 1) as nat)
        }
    } else if be32(s, off) == PROP || be32(s, off) == NOP {
        body_end(s, token_end(s, off), nest)
    } else {
        off
    }
}

/// The first property named `name`.
pub open spec fn find_prop(props: Seq<PropView>, name: Seq<u8>) -> Option<PropView>
    decreases props.len(),
{
    if props.len() == 0 {
        None
    } else if props[0].name == name {
        Some(props[0])
    } else {
        find_prop(props.drop_first(), name)
    }
}

/// The first node named `name`.
pub open spec fn find_node(nodes: Seq<NodeView>, name: Seq<u8>) -> Option<NodeView>
    decreases nodes.len(),
{
    if nodes.len() == 0 {
        None
    } else if nodes[0].name == name {
        Some(nodes[0])
    } else {
        find_node(nodes.drop_first(), name)
    }
}

/// The children of `node`, in file order.
pub open spec fn children_of(s: Seq<u8>, node: NodeView) -> Seq<NodeView> {
    children_at(s, node.body, 0, node.depth + 1)
}

/// The node has a property `name` and `pred` holds of the first such.
pub open spec fn prop_matches(
    s: Seq<u8>,
    strings: int,
    node: NodeView,
    name: Seq<u8>,
    pred: spec_fn(PropView) -> bool,
) -> bool {
    match find_prop(props_at(s, strings, node.body), name) {
        Some(p) => pred(p),
        None => false,
    }
}

/// The test that keeps the nodes which have a property `name` of which
/// `pred` holds.
pub open spec fn keeps(s: Seq<u8>, strings: int, name: Seq<u8>, pred: spec_fn(PropView) -> bool)
    -> spec_fn(NodeView) -> bool {
    |c: NodeView| prop_matches(s, strings, c, name, pred)
}

/// The separator of path segments.
pub const SLASH: u8 = 0x2f;

/// The segments that the slashes of `path` part; an empty path has one empty
/// segment.
pub open spec fn split_path(path: Seq<u8>) -> Seq<Seq<u8>> {
    split(path, SLASH)
}

/// The names that a path asks for: its segments, without the empty one in
/// front of a leading slash.
pub open spec fn path_segments(path: Seq<u8>) -> Seq<Seq<u8>> {
    if path.len() > 0 && path[0] == SLASH {
        split_path(path.skip(1))
    } else {
        split_path(path)
    }
}

/// Where a walk down from `node` along `names` ends: at the last name, or at
/// the node whose child of the next name is missing.
pub open spec fn descend(s: Seq<u8>, node: NodeView, names: Seq<Seq<u8>>) -> NodeView
    decreases names.len(),
{
    if names.len() == 0 {
        node
    } else {
        match find_node(children_of(s, node), names[0]) {
            Some(child) => descend(s, child, names.drop_first()),
            None => node,
        }
    }
}

/// The node reached from `node` by taking the child of each name in turn, if
/// every one of them exists.
pub open spec fn follow(s: Seq<u8>, node: NodeView, names: Seq<Seq<u8>>) -> Option<NodeView>
    decreases names.len(),
{
    if names.len() == 0 {
        Some(node)
    } else {
        match find_node(children_of(s, node), names[0]) {
            Some(child) => follow(s, child, names.drop_first()),
            None => None,
        }
    }
}

/// The path `/names[0]/names[1]/...`.
pub open spec fn join_path(names: Seq<Seq<u8>>) -> Seq<u8>
    decreases names.len(),
{
    if names.len() == 0 {
        Seq::empty()
    } else {
        seq![SLASH] + names[0] + join_path(names.drop_first())
    }
}

/// No byte of `name` is a slash.
pub open spec fn slash_free(name: Seq<u8>) -> bool {
    forall|i: int| 0 <= i < name.len() ==> name[i] != SLASH
}

proof fn lemma_be_word(b0: u8, b1: u8, b2: u8, b3: u8)
    ensures
        swap32((b0 as u32) | (b1 as u32) << 8 | (b2 as u32) << 16 | (b3 as u32) << 24) as int
            == b0 as int * 0x100_0000 + b1 as int * 0x1_0000 + b2 as int * 0x100 + b3 as int,
{
    let w = (b0 as u32) | (b1 as u32) << 8 | (b2 as u32) << 16 | (b3 as u32) << 24;
    assert(swap32(w) == (b0 as u32) * 0x100_0000 + (b1 as u32) * 0x1_0000 + (b2 as u32) * 0x100
        + (b3 as u32)) by (bit_vector)
        requires
            w == (b0 as u32) | (b1 as u32) << 8 | (b2 as u32) << 16 | (b3 as u32) << 24,
    ;
}

/// Reads the big-endian word at `off`.
pub(crate) fn read_be32(blob: &[u8], off: usize) -> (r: u32)
    requires
        off + 4 <= blob@.len(),
    ensures
        r == be32(blob@, off as int),
{
    let b0 = blob[off];
    let b1 = blob[off + 1];
    let b2 = blob[off + 2];
    let b3 = blob[off + 3];
    let word: u32 = (b0 as u32) | (b1 as u32) << 8 | (b2 as u32) << 16 | (b3 as u32) << 24;
    proof {
        lemma_be_word(b0, b1, b2, b3);
    }
    Endian::<u32, Big>::from_raw(word).native()
}

/// Length of the string at `off`, if a NUL ends it inside the blob.
fn scan_str(blob: &[u8], off: usize) -> (r: Option<usize>)
    ensures
        r is Some <==> terminated(blob@, off as int),
        r matches Some(n) ==> n == str_len(blob@, off as int) && off + n < blob@.len(),
{
    let n = scan_until(blob, off, 0);
    if off < blob.len() && n < blob.len() - off {
        Some(n)
    } else {
        None
    }
}

/// `x` rounded up to a multiple of 4.
fn round_up4(x: usize) -> (r: usize)
    requires
        x + 3 <= usize::MAX,
    ensures
        r == align4(x as int),
        x <= r <= x + 3,
        r % 4 == 0,
{
    (x + 3) / 4 * 4
}

/// Checks the token at `off` and says where the next one starts.
fn check_token(blob: &[u8], strings_off: usize, off: usize) -> (r: Result<usize, FdtError>)
    requires
        strings_off <= blob@.len(),
        blob@.len() + 16 <= usize::MAX,
    ensures
        match r {
            Ok(next) => token_fault(blob@, strings_off as int, off as int) is None && next
                == token_end(blob@, off as int) && off + 4 <= next <= blob@.len() + 3,
            Err(e) => token_fault(blob@, strings_off as int, off as int) == Some(e),
        },
{
    let len = blob.len();
    if off > len || len - off < 4 {
        return Err(FdtError::Truncated { offset: off });
    }
    let token = read_be32(blob, off);
    if token == BEGIN_NODE {
        match scan_str(blob, off + 4) {
            Some(n) => Ok(round_up4(off + 4 + n + 1)),
            None => Err(FdtError::Truncated { offset: off }),
        }
    } else if token == PROP {
        if len - off < 12 {
            return Err(FdtError::Truncated { offset: off });
        }
        let value_len = read_be32(blob, off + 4);
        let name_off = read_be32(blob, off + 8);
        if value_len as u64 > (len - (off + 12)) as u64 {
            return Err(FdtError::Truncated { offset: off });
        }
        if name_off as u64 > (len - strings_off) as u64 {
            return Err(FdtError::Truncated { offset: off });
        }
        match scan_str(blob, strings_off + name_off as usize) {
            Some(_) => Ok(round_up4(off + 12 + value_len as usize)),
            None => Err(FdtError::Truncated { offset: off }),
        }
    } else if token == END_NODE || token == NOP || token == END {
        Ok(off + 4)
    } else {
        Err(FdtError::UnknownToken { offset: off })
    }
}

/// The two words that follow a PROP token.
#[derive(Clone, Copy)]
pub struct PropHeader {
    len: Endian<u32, Big>,
    nameoff: Endian<u32, Big>,
}

impl PropHeader {
    /// Reads the header of the property whose token is at `off`.
    fn read(blob: &[u8], off: usize) -> (r: PropHeader)
        requires
            off + 12 <= blob@.len(),
        ensures
            r.len_spec() == be32(blob@, off + 4),
            r.nameoff_spec() == be32(blob@, off + 8),
    {
        assert(blob@.len() == blob.len());
        PropHeader {
            len: Endian::new(read_be32(blob, off + 4)),
            nameoff: Endian::new(read_be32(blob, off + 8)),
        }
    }

    /// Length of the value in bytes.
    pub closed spec fn len_spec(&self) -> int {
        self.len.value() as int
    }

    /// Offset of the name in the strings block.
    pub closed spec fn nameoff_spec(&self) -> int {
        self.nameoff.value() as int
    }

    /// Length of the value in bytes.
    pub fn len(&self) -> (r: u32)
        ensures
            r == self.len_spec(),
    {
        self.len.native()
    }

    /// Offset of the name in the strings block.
    pub fn nameoff(&self) -> (r: u32)
        ensures
            r == self.nameoff_spec(),
    {
        self.nameoff.native()
    }
}

/// A property: its name and its raw value, both slices of the blob.
#[derive(Clone, Copy)]
pub struct Prop<'a> {
    pub name: &'a [u8],
    pub value: &'a [u8],
}

impl<'a> View for Prop<'a> {
    type V = PropView;

    open spec fn view(&self) -> PropView {
        PropView { name: self.name@, value: self.value@ }
    }
}

/// Walks the properties of one node.
pub struct PropIterator<'a> {
    blob: &'a [u8],
    strings_off: usize,
    off: usize,
}

impl<'a> PropIterator<'a> {
    /// The walk can go on: the tokens ahead are sound.
    pub closed spec fn wf(&self) -> bool {
        chain_ok(self.blob@, self.strings_off as int, self.off as int)
    }

    /// The properties still to come.
    pub closed spec fn remaining(&self) -> Seq<PropView> {
        props_at(self.blob@, self.strings_off as int, self.off as int)
    }

    /// The next property, or `None` when the next token is no property.
    pub fn next(&mut self) -> (r: Option<Prop<'a>>)
        requires
            old(self).wf(),
        ensures
            final(self).wf(),
            match r {
                Some(p) => old(self).remaining().len() > 0 && p@ == old(self).remaining()[0]
                    && final(self).remaining() == old(self).remaining().drop_first(),
                None => old(self).remaining().len() == 0 && final(self).remaining().len() == 0,
            },
    {
        let blob = self.blob;
        loop
            invariant
                self.wf(),
                self.blob == blob,
                self.strings_off == old(self).strings_off,
                self.remaining() == old(self).remaining(),
            decreases room(self.blob@, self.off as int),
        {
            let token = read_be32(blob, self.off);
            if token == NOP {
                self.off = self.off + 4;
            } else if token == PROP {
                let header = PropHeader::read(blob, self.off);
                let value_start = self.off + 12;
                let value_end = value_start + header.len() as usize;
                let name_start = self.strings_off + header.nameoff() as usize;
                let name_len = match scan_str(blob, name_start) {
                    Some(n) => n,
                    None => 0,
                };
                let prop = Prop {
                    name: &blob[name_start..name_start + name_len],
                    value: &blob[value_start..value_end],
                };
                self.off = round_up4(value_end);
                assert(old(self).remaining().drop_first() =~= self.remaining());
                return Some(prop);
            } else {
                return None;
            }
        }
    }
}

/// A node: its name, its depth, and where its body starts in the blob.
#[derive(Clone, Copy)]
pub struct Node<'a> {
    blob: &'a [u8],
    strings_off: usize,
    base: usize,
    pub name: &'a [u8],
    pub depth: usize,
}

impl<'a> View for Node<'a> {
    type V = NodeView;

    closed spec fn view(&self) -> NodeView {
        NodeView { name: self.name@, depth: self.depth as nat, body: self.base as int }
    }
}

/// Walks the children of one node, or the top level of the struct block.
pub struct NodeIterator<'a> {
    blob: &'a [u8],
    strings_off: usize,
    off: usize,
    depth: usize,
    search_depth: usize,
}

impl<'a> NodeIterator<'a> {
    /// The walk can go on: the tokens ahead are sound.
    pub closed spec fn wf(&self) -> bool {
        &&& chain_ok(self.blob@, self.strings_off as int, self.off as int)
        &&& (self.depth + self.search_depth) * 4 <= self.off
    }

    /// The blob that is walked.
    pub closed spec fn blob(&self) -> Seq<u8> {
        self.blob@
    }

    /// Offset of the strings block.
    pub closed spec fn strings(&self) -> int {
        self.strings_off as int
    }

    /// The nodes still to come.
    pub closed spec fn remaining(&self) -> Seq<NodeView> {
        children_at(
            self.blob@,
            self.off as int,
            self.search_depth as nat,
            (self.depth + 1) as nat,
        )
    }

    /// The next child, or `None` when the node is closed or the block ends.
    pub fn next(&mut self) -> (r: Option<Node<'a>>)
        requires
            old(self).wf(),
        ensures
            final(self).wf(),
            final(self).blob() == old(self).blob(),
            final(self).strings() == old(self).strings(),
            match r {
                Some(n) => old(self).remaining().len() > 0 && n@ == old(self).remaining()[0]
                    && final(self).remaining() == old(self).remaining().drop_first() && n.wf()
                    && n.blob() == old(self).blob() && n.strings() == old(self).strings(),
                None => old(self).remaining().len() == 0 && final(self).remaining().len() == 0,
            },
    {
        let blob = self.blob;
        loop
            invariant
                self.wf(),
                self.blob == blob,
                blob == old(self).blob,
                self.strings_off == old(self).strings_off,
                self.depth == old(self).depth,
                self.remaining() == old(self).remaining(),
            decreases room(self.blob@, self.off as int),
        {
            let token = read_be32(blob, self.off);
            if token == BEGIN_NODE {
                let name_start = self.off + 4;
                let name_len = match scan_str(blob, name_start) {
                    Some(n) => n,
                    None => 0,
                };
                let body = round_up4(name_start + name_len + 1);
                let found = self.search_depth == 0;
                self.off = body;
                self.search_depth = self.search_depth + 1;
                if found {
                    let node = Node {
                        blob,
                        strings_off: self.strings_off,
                        base: body,
                        name: &blob[name_start..name_start + name_len],
                        depth: self.depth + 1,
                    };
                    assert(old(self).remaining().drop_first() =~= self.remaining());
                    return Some(node);
                }
            } else if token == END_NODE {
                if self.search_depth == 0 {
                    return None;
                }
                self.off = self.off + 4;
                self.search_depth = self.search_depth - 1;
            } else if token == PROP {
                let header = PropHeader::read(blob, self.off);
                self.off = round_up4(self.off + 12 + header.len() as usize);
            } else if token == NOP {
                self.off = self.off + 4;
            } else {
                return None;
            }
        }
    }
}

impl<'a> Node<'a> {
    /// The node lies in a sound blob.
    pub closed spec fn wf(&self) -> bool {
        &&& chain_ok(self.blob@, self.strings_off as int, self.base as int)
        &&& self.depth * 4 <= self.base
    }

    /// The blob that holds the node.
    pub closed spec fn blob(&self) -> Seq<u8> {
        self.blob@
    }

    /// Offset of the strings block.
    pub closed spec fn strings(&self) -> int {
        self.strings_off as int
    }

    /// The node's name.
    pub fn name(&self) -> (r: &'a [u8])
        ensures
            r@ == self@.name,
    {
        self.name
    }

    /// The node's depth; the root has depth 1.
    pub fn depth(&self) -> (r: usize)
        ensures
            r == self@.depth,
    {
        self.depth
    }

    /// The node's properties, in file order.
    pub open spec fn props_spec(&self) -> Seq<PropView> {
        props_at(self.blob(), self.strings(), self@.body)
    }

    /// The node's children, in file order.
    pub open spec fn children_spec(&self) -> Seq<NodeView> {
        children_at(self.blob(), self@.body, 0, self@.depth + 1)
    }

    /// A walk over the node's properties.
    pub fn props(&self) -> (r: PropIterator<'a>)
        requires
            self.wf(),
        ensures
            r.wf(),
            r.remaining() == self.props_spec(),
    {
        PropIterator { blob: self.blob, strings_off: self.strings_off, off: self.base }
    }

    /// A walk over the node's children.
    pub fn children(&self) -> (r: NodeIterator<'a>)
        requires
            self.wf(),
        ensures
            r.wf(),
            r.blob() == self.blob(),
            r.strings() == self.strings(),
            r.remaining() == self.children_spec(),
    {
        NodeIterator {
            blob: self.blob,
            strings_off: self.strings_off,
            off: self.base,
            depth: self.depth,
            search_depth: 0,
        }
    }
}

impl<'a> Node<'a> {
    /// The first property named `name`.
    pub fn prop_by_name(&self, name: &str) -> (r: Option<Prop<'a>>)
        requires
            self.wf(),
        ensures
            match r {
                Some(p) => find_prop(self.props_spec(), name.spec_bytes()) == Some(p@),
                None => find_prop(self.props_spec(), name.spec_bytes()) is None,
            },
    {
        self.prop_by_bytes(name.as_bytes())
    }

    /// The first property whose name is the byte string `name`.
    pub fn prop_by_bytes(&self, name: &[u8]) -> (r: Option<Prop<'a>>)
        requires
            self.wf(),
        ensures
            match r {
                Some(p) => find_prop(self.props_spec(), name@) == Some(p@),
                None => find_prop(self.props_spec(), name@) is None,
            },
    {
        let mut props = self.props();
        loop
            invariant
                props.wf(),
                find_prop(props.remaining(), name@) == find_prop(self.props_spec(), name@),
            decreases props.remaining().len(),
        {
            match props.next() {
                None => {
                    return None;
                },
                Some(p) => {
                    if bytes_eq(p.name, name) {
                        return Some(p);
                    }
                },
            }
        }
    }

    /// The first child named `name`.
    pub fn child_by_name(&self, name: &str) -> (r: Option<Node<'a>>)
        requires
            self.wf(),
        ensures
            match r {
                Some(n) => find_node(self.children_spec(), name.spec_bytes()) == Some(n@)
                    && n.wf() && n.blob() == self.blob() && n.strings() == self.strings(),
                None => find_node(self.children_spec(), name.spec_bytes()) is None,
            },
    {
        self.child_by_bytes(name.as_bytes())
    }

    /// The first child whose name is the byte string `name`.
    pub fn child_by_bytes(&self, name: &[u8]) -> (r: Option<Node<'a>>)
        requires
            self.wf(),
        ensures
            match r {
                Some(n) => find_node(self.children_spec(), name@) == Some(n@) && n.wf()
                    && n.blob() == self.blob() && n.strings() == self.strings(),
                None => find_node(self.children_spec(), name@) is None,
            },
    {
        let mut children = self.children();
        loop
            invariant
                children.wf(),
                children.blob() == self.blob(),
                children.strings() == self.strings(),
                find_node(children.remaining(), name@) == find_node(self.children_spec(), name@),
            decreases children.remaining().len(),
        {
            match children.next() {
                None => {
                    return None;
                },
                Some(n) => {
                    if bytes_eq(n.name, name) {
                        return Some(n);
                    }
                },
            }
        }
    }

    /// The children that have a property `name` of which `matches` says yes,
    /// in file order. Where a child has several properties of that name, the
    /// first one counts. Where `matches` computes a predicate on properties,
    /// the result is the children filtered by it.
    pub fn children_by_prop<F: Fn(&Prop<'a>) -> bool>(&self, name: &str, matches: F) -> (r: Vec<
        Node<'a>,
    >)
        requires
            self.wf(),
            forall|p: Prop<'a>| matches.requires((&p,)),
        ensures
            forall|i: int|
                0 <= i < r@.len() ==> (#[trigger] r@[i]).wf() && r@[i].blob() == self.blob()
                    && r@[i].strings() == self.strings(),
            exists|keep: Seq<bool>|
                keep.len() == self.children_spec().len() && node_views(r@) == select(
                    self.children_spec(),
                    keep,
                ) && forall|i: int|
                    0 <= i < keep.len() ==> answers(
                        matches,
                        self.blob(),
                        self.strings(),
                        self.children_spec()[i],
                        name.spec_bytes(),
                        #[trigger] keep[i],
                    ),
            forall|pred: spec_fn(PropView) -> bool| #[trigger]
                decides(matches, pred) ==> node_views(r@) == self.children_spec().filter(
                    keeps(self.blob(), self.strings(), name.spec_bytes(), pred),
                ),
    {
        let mut out: Vec<Node<'a>> = Vec::new();
        let mut children = self.children();
        let ghost mut done: Seq<NodeView> = Seq::empty();
        let ghost mut kept: Seq<bool> = Seq::empty();
        loop
            invariant
                self.wf(),
                forall|p: Prop<'a>| matches.requires((&p,)),
                children.wf(),
                children.blob() == self.blob(),
                children.strings() == self.strings(),
                done + children.remaining() == self.children_spec(),
                kept.len() == done.len(),
                node_views(out@) == select(done, kept),
                forall|i: int|
                    0 <= i < kept.len() ==> answers(
                        matches,
                        self.blob(),
                        self.strings(),
                        done[i],
                        name.spec_bytes(),
                        #[trigger] kept[i],
                    ),
                forall|i: int|
                    0 <= i < out@.len() ==> (#[trigger] out@[i]).wf() && out@[i].blob()
                        == self.blob() && out@[i].strings() == self.strings(),
                forall|pred: spec_fn(PropView) -> bool| #[trigger]
                    decides(matches, pred) ==> node_views(out@) == done.filter(
                        keeps(self.blob(), self.strings(), name.spec_bytes(), pred),
                    ),
            decreases children.remaining().len(),
        {
            let ghost before = children.remaining();
            match children.next() {
                None => {
                    assert(done + Seq::<NodeView>::empty() == done);
                    return out;
                },
                Some(child) => {
                    let keep = match child.prop_by_name(name) {
                        Some(prop) => {
                            let keep = matches(&prop);
                            assert(matches.ensures((&prop,), keep));
                            keep
                        },
                        None => false,
                    };
                    assert(answers(
                        matches,
                        self.blob(),
                        self.strings(),
                        child@,
                        name.spec_bytes(),
                        keep,
                    ));
                    let ghost old_out = out@;
                    if keep {
                        out.push(child);
                    }
                    proof {
                        let next_done = done.push(child@);
                        let next_kept = kept.push(keep);
                        assert(next_done + children.remaining() == done + before);
                        assert(next_done.drop_last() == done);
                        assert(next_kept.drop_last() == kept);
                        if keep {
                            assert(node_views(out@) == node_views(old_out).push(child@));
                        }
                        assert(node_views(out@) == select(next_done, next_kept));
                        kept = next_kept;
                        assert forall|pred: spec_fn(PropView) -> bool| #[trigger]
                            decides(matches, pred) implies node_views(out@) == next_done.filter(
                            keeps(self.blob(), self.strings(), name.spec_bytes(), pred),
                        ) by {
                            let f = keeps(self.blob(), self.strings(), name.spec_bytes(), pred);
                            reveal(Seq::filter);
                            assert(node_views(old_out) == done.filter(f));
                            assert(keep == f(child@));
                            if keep {
                                assert(node_views(out@) == node_views(old_out).push(child@));
                            }
                        }
                        done = next_done;
                    }
                },
            }
        }
    }

    /// Walks down from this node along the names that follow the first
    /// `start` bytes of `path`.
    fn child_by_path_helper(self, path: &[u8], start: usize) -> (r: Option<Node<'a>>)
        requires
            self.wf(),
            start <= path@.len(),
        ensures
            r matches Some(n) && n@ == descend(
                self.blob(),
                self@,
                split_path(path@.skip(start as int)),
            ) && n.wf() && n.blob() == self.blob() && n.strings() == self.strings(),
    {
        let mut cur = self;
        let mut from = start;
        let len = path.len();
        loop
            invariant
                len == path@.len(),
                cur.wf(),
                cur.blob() == self.blob(),
                cur.strings() == self.strings(),
                from <= path@.len(),
                descend(self.blob(), cur@, split_path(path@.skip(from as int))) == descend(
                    self.blob(),
                    self@,
                    split_path(path@.skip(start as int)),
                ),
            decreases path@.len() - from,
        {
            let n = scan_until(path, from, SLASH);
            let ghost rest = path@.skip(from as int);
            proof {
                lemma_span_skip(path@, from as int, 0, SLASH);
                assert(rest.take(n as int) == path@.subrange(from as int, from + n));
            }
            let found = cur.child_by_bytes(&path[from..from + n]);
            let last = from + n >= len;
            match found {
                None => {
                    return Some(cur);
                },
                Some(child) => {
                    if last {
                        assert(rest == path@.subrange(from as int, from + n));
                        assert(split_path(rest) == seq![rest]);
                        assert(split_path(rest).drop_first() == Seq::<Seq<u8>>::empty());
                        assert(descend(self.blob(), child@, Seq::empty()) == child@);
                        assert(split_path(rest)[0] == rest);
                        return Some(child);
                    }
                    proof {
                        assert(rest.skip(n + 1) == path@.skip(from + n + 1));
                        assert(split_path(rest).drop_first() == split_path(rest.skip(n + 1)));
                    }
                    cur = child;
                    from = from + n + 1;
                },
            }
        }
    }

    /// The node that `path` leads to from this node. The path's names are
    /// parted by slashes and a leading slash is ignored; where a name has no
    /// node, the walk stops at the node reached so far.
    pub fn child_by_path(self, path: &[u8]) -> (r: Option<Node<'a>>)
        requires
            self.wf(),
        ensures
            r matches Some(n) && n@ == descend(self.blob(), self@, path_segments(path@)) && n.wf()
                && n.blob() == self.blob() && n.strings() == self.strings(),
    {
        if path.len() > 0 && path[0] == SLASH {
            self.child_by_path_helper(path, 1)
        } else {
            assert(path@.skip(0) == path@);
            self.child_by_path_helper(path, 0)
        }
    }
}

/// The views of a list of nodes.
pub open spec fn node_views<'a>(nodes: Seq<Node<'a>>) -> Seq<NodeView> {
    nodes.map_values(|n: Node<'a>| n@)
}

/// The nodes of `nodes` whose place in `keep` holds `true`.
pub open spec fn select(nodes: Seq<NodeView>, keep: Seq<bool>) -> Seq<NodeView>
    decreases nodes.len(),
{
    if nodes.len() == 0 || keep.len() != nodes.len() {
        Seq::empty()
    } else {
        let before = select(nodes.drop_last(), keep.drop_last());
        if keep.last() {
            before.push(nodes.last())
        } else {
            before
        }
    }
}

/// `answer` is what `matches` may say of `node`: its answer on the first
/// property named `name`, and no where there is none.
pub open spec fn answers<'a, F: Fn(&Prop<'a>) -> bool>(
    matches: F,
    s: Seq<u8>,
    strings: int,
    node: NodeView,
    name: Seq<u8>,
    answer: bool,
) -> bool {
    match find_prop(props_at(s, strings, node.body), name) {
        Some(p) => exists|q: Prop<'a>| q@ == p && #[trigger] matches.ensures((&q,), answer),
        None => !answer,
    }
}

/// `matches` answers as `pred` does.
pub open spec fn decides<'a, F: Fn(&Prop<'a>) -> bool>(
    matches: F,
    pred: spec_fn(PropView) -> bool,
) -> bool {
    forall|p: Prop<'a>, b: bool| #[trigger] matches.ensures((&p,), b) ==> b == pred(p@)
}

/// The fixed header of a blob: ten big-endian words.
#[derive(Clone, Copy, Debug, PartialEq, Eq, Structural)]
pub struct Header {
    pub magic: u32,
    pub total_size: u32,
    pub dt_struct_offset: u32,
    pub dt_strings_offset: u32,
    pub memory_reserve_map_offset: u32,
    pub version: u32,
    pub last_compatible_version: u32,
    pub boot_cpuid: u32,
    pub dt_strings_size: u32,
    pub dt_struct_size: u32,
}

/// The header that the first 40 bytes of `s` spell.
pub open spec fn header_of(s: Seq<u8>) -> Header {
    Header {
        magic: be32(s, 0) as u32,
        total_size: be32(s, 4) as u32,
        dt_struct_offset: be32(s, 8) as u32,
        dt_strings_offset: be32(s, 12) as u32,
        memory_reserve_map_offset: be32(s, 16) as u32,
        version: be32(s, 20) as u32,
        last_compatible_version: be32(s, 24) as u32,
        boot_cpuid: be32(s, 28) as u32,
        dt_strings_size: be32(s, 32) as u32,
        dt_struct_size: be32(s, 36) as u32,
    }
}

/// A device tree blob whose struct block has been checked.
#[derive(Clone, Copy)]
pub struct DeviceTree<'a> {
    blob: &'a [u8],
    struct_off: usize,
    strings_off: usize,
}

impl<'a> DeviceTree<'a> {
    /// The header and every token of the struct block are sound.
    pub closed spec fn wf(&self) -> bool {
        &&& blob_fault(self.blob@) is None
        &&& self.struct_off == be32(self.blob@, 8)
        &&& self.strings_off == be32(self.blob@, 12)
    }

    /// The bytes of the blob.
    pub closed spec fn blob(&self) -> Seq<u8> {
        self.blob@
    }

    /// Offset of the strings block: the fourth word of the header.
    pub open spec fn strings(&self) -> int {
        be32(self.blob(), 12)
    }

    /// The nodes at the top of the struct block: the root, if there is one.
    pub open spec fn nodes_spec(&self) -> Seq<NodeView> {
        children_at(self.blob(), be32(self.blob(), 8), 0, 1)
    }

    /// The header of the blob.
    pub fn header(&self) -> (r: Header)
        requires
            self.wf(),
        ensures
            r == header_of(self.blob()),
    {
        let blob = self.blob;
        Header {
            magic: read_be32(blob, 0),
            total_size: read_be32(blob, 4),
            dt_struct_offset: read_be32(blob, 8),
            dt_strings_offset: read_be32(blob, 12),
            memory_reserve_map_offset: read_be32(blob, 16),
            version: read_be32(blob, 20),
            last_compatible_version: read_be32(blob, 24),
            boot_cpuid: read_be32(blob, 28),
            dt_strings_size: read_be32(blob, 32),
            dt_struct_size: read_be32(blob, 36),
        }
    }

    /// The size of the whole blob as its header gives it: the second word.
    /// `None` where `header` is shorter than the two words.
    pub fn total_size(header: &[u8]) -> (r: Option<usize>)
        ensures
            r == if header@.len() >= 8 {
                Some(be32(header@, 4) as usize)
            } else {
                None
            },
    {
        if header.len() >= 8 {
            Some(read_be32(header, 4) as usize)
        } else {
            None
        }
    }

    /// Checks the header and walks the struct block once, token by token.
    /// The blob is taken if and only if nothing is wrong with it; else the
    /// first fault is returned.
    #[verifier::rlimit(40)]
    pub fn new(blob: &'a [u8]) -> (r: Result<DeviceTree<'a>, FdtError>)
        ensures
            match r {
                Ok(tree) => blob_fault(blob@) is None && tree.wf() && tree.blob() == blob@,
                Err(e) => blob_fault(blob@) == Some(e),
            },
    {
        let len = blob.len();
        if len < HEADER_LEN || len > usize::MAX - 16 {
            return Err(FdtError::BadHeader);
        }
        let struct_word = read_be32(blob, 8);
        let strings_word = read_be32(blob, 12);
        if struct_word % 4 != 0 || struct_word as u64 > len as u64 || strings_word as u64
            > len as u64 {
            return Err(FdtError::BadHeader);
        }
        let struct_off = struct_word as usize;
        let strings_off = strings_word as usize;
        let mut off = struct_off;
        loop
            invariant
                len == blob@.len(),
                HEADER_LEN <= len,
                len + 16 <= usize::MAX,
                struct_off == be32(blob@, 8),
                strings_off == be32(blob@, 12),
                struct_off <= len,
                strings_off <= len,
                struct_off % 4 == 0,
                off % 4 == 0,
                chain_fault(blob@, strings_off as int, off as int) == chain_fault(
                    blob@,
                    strings_off as int,
                    struct_off as int,
                ),
            decreases room(blob@, off as int),
        {
            let ghost here = chain_fault(blob@, strings_off as int, off as int);
            match check_token(blob, strings_off, off) {
                Err(e) => {
                    assert(here == Some(e));
                    return Err(e);
                },
                Ok(next) => {
                    if read_be32(blob, off) == END {
                        assert(here is None);
                        return Ok(DeviceTree { blob, struct_off, strings_off });
                    }
                    assert(here == chain_fault(blob@, strings_off as int, next as int));
                    off = next;
                },
            }
        }
    }

    /// A walk over the top level of the struct block.
    pub fn nodes(&self) -> (r: NodeIterator<'a>)
        requires
            self.wf(),
        ensures
            r.wf(),
            r.blob() == self.blob(),
            r.strings() == self.strings(),
            r.remaining() == self.nodes_spec(),
    {
        NodeIterator {
            blob: self.blob,
            strings_off: self.strings_off,
            off: self.struct_off,
            depth: 0,
            search_depth: 0,
        }
    }

    /// The root node: the first node of the struct block.
    pub fn root(&self) -> (r: Option<Node<'a>>)
        requires
            self.wf(),
        ensures
            match r {
                Some(n) => self.nodes_spec().len() > 0 && n@ == self.nodes_spec()[0] && n.wf()
                    && n.blob() == self.blob() && n.strings() == self.strings(),
                None => self.nodes_spec().len() == 0,
            },
    {
        let mut nodes = self.nodes();
        nodes.next()
    }
}

/// Nothing inside a nested node shows in the list of children: a walk that
/// is `nest + 1` levels down yields what a walk yields that starts at level 0
/// behind the END_NODE which closes those levels.
pub proof fn lemma_children_skip_nested(s: Seq<u8>, off: int, nest: nat, depth: nat)
    ensures
        children_at(s, off, nest + 1, depth) == children_at(s, body_end(s, off, nest), 0, depth),
    decreases room(s, off),
{
    if room(s, off) == 0 {
    } else if be32(s, off) == BEGIN_NODE {
        lemma_children_skip_nested(s, token_end(s, off), nest + 1, depth);
    } else if be32(s, off) == END_NODE {
        if nest > 0 {
            lemma_children_skip_nested(s, off + 4, (nest - 1) as nat, depth);
        }
    } else if be32(s, off) == PROP || be32(s, off) == NOP {
        lemma_children_skip_nested(s, token_end(s, off), nest, depth);
    }
}

/// The children of a node are its immediate children, in file order: where a
/// child begins at `off`, the list is that child, then the children found
/// behind the END_NODE that closes it, whatever the child holds.
pub proof fn lemma_children_are_immediate(s: Seq<u8>, off: int, depth: nat)
    requires
        room(s, off) > 0,
        be32(s, off) == BEGIN_NODE,
    ensures
        children_at(s, off, 0, depth) == seq![node_at(s, off, depth)] + children_at(
            s,
            body_end(s, token_end(s, off), 0),
            0,
            depth,
        ),
{
    lemma_children_skip_nested(s, token_end(s, off), 0, depth);
}

/// A slash-free name in front of a slash is the first segment of a path.
pub proof fn lemma_split_first(name: Seq<u8>, rest: Seq<u8>)
    requires
        slash_free(name),
    ensures
        split_path(name + seq![SLASH] + rest) == seq![name] + split_path(rest),
        split_path(name) == seq![name],
{
    let joined = name + seq![SLASH] + rest;
    lemma_span_prefix(joined, name.len() as int, 0);
    lemma_span_prefix(name, name.len() as int, 0);
    assert(joined.take(name.len() as int) == name);
    assert(joined.skip(name.len() as int + 1) == rest);
}

/// Over bytes that are no slashes the span runs on to the first slash.
proof fn lemma_span_prefix(s: Seq<u8>, n: int, k: int)
    requires
        0 <= k <= n <= s.len(),
        forall|i: int| 0 <= i < n ==> s[i] != SLASH,
        n < s.len() ==> s[n] == SLASH,
    ensures
        span(s, k, SLASH) == n - k,
    decreases n - k,
{
    if k < n {
        lemma_span_prefix(s, n, k + 1);
    }
}

/// The segments of `/a/b/...` are `a`, `b`, ...
pub proof fn lemma_segments_of_joined(names: Seq<Seq<u8>>)
    requires
        names.len() > 0,
        forall|i: int| 0 <= i < names.len() ==> slash_free(#[trigger] names[i]),
    ensures
        path_segments(join_path(names)) == names,
    decreases names.len(),
{
    let path = join_path(names);
    let tail = names.drop_first();
    assert(path.skip(1) == names[0] + join_path(tail));
    if tail.len() == 0 {
        assert(join_path(tail) == Seq::<u8>::empty());
        assert(names[0] + join_path(tail) == names[0]);
        lemma_split_first(names[0], Seq::empty());
        assert(seq![names[0]] == names);
    } else {
        lemma_segments_of_joined(tail);
        let rest = join_path(tail);
        assert(rest.len() > 0 && rest[0] == SLASH);
        assert(rest == seq![SLASH] + rest.skip(1));
        assert(names[0] + rest == names[0] + seq![SLASH] + rest.skip(1));
        lemma_split_first(names[0], rest.skip(1));
        assert(seq![names[0]] + tail == names);
    }
}

/// Where every name has its node, the lenient walk ends where the strict one
/// does.
pub proof fn lemma_descend_follows(s: Seq<u8>, node: NodeView, names: Seq<Seq<u8>>)
    requires
        follow(s, node, names) is Some,
    ensures
        descend(s, node, names) == follow(s, node, names)->0,
    decreases names.len(),
{
    if names.len() > 0 {
        let child = find_node(children_of(s, node), names[0])->0;
        lemma_descend_follows(s, child, names.drop_first());
    }
}

/// A path `/a/b/c` leads where taking the child named `a`, then its child
/// named `b`, then that one's child named `c` leads, when all of them exist.
pub proof fn lemma_path_is_hops(s: Seq<u8>, node: NodeView, names: Seq<Seq<u8>>)
    requires
        names.len() > 0,
        forall|i: int| 0 <= i < names.len() ==> slash_free(#[trigger] names[i]),
        follow(s, node, names) is Some,
    ensures
        descend(s, node, path_segments(join_path(names))) == follow(s, node, names)->0,
{
    lemma_segments_of_joined(names);
    lemma_descend_follows(s, node, names);
}

} // verus!
