use vstd::prelude::*;
use crate::direction::{Direction, opposite, direction_of_rank};
use crate::node::{DirectionGiving, Links, Neighbors, Output, Port, idle_port, port_evolved, neighbors_evolved};
use crate::node::console_node::byte_of;
use crate::node::number_console_node::number_of;
use crate::node::console_node::{ConsoleInNode, ConsoleOutNode};
use crate::node::instruction_node::InstructionNode;
use crate::node::number_console_node::{NumberConsoleInNode, NumberConsoleOutNode};
use crate::number::Number;
use crate::position::{Position, lemma_step_back};

verus! {

/// A node of the grid, of any of its kinds.
#[derive(Debug)]
pub enum Node {
    Instruction(InstructionNode),
    ConsoleIn(ConsoleInNode),
    ConsoleOut(ConsoleOutNode),
    NumberConsoleIn(NumberConsoleInNode),
    NumberConsoleOut(NumberConsoleOutNode),
}

/// A port between transfers: not marked given, and with no claim unless it offers.
pub open spec fn port_settled(p: Port) -> bool {
    p.give != DirectionGiving::Given && (p.give == DirectionGiving::Idle ==> p.giving_to is None)
}

impl Node {
    pub open spec fn spec_position(self) -> Position {
        match self {
            Node::Instruction(n) => n.position,
            Node::ConsoleIn(n) => n.position,
            Node::ConsoleOut(n) => n.position,
            Node::NumberConsoleIn(n) => n.position,
            Node::NumberConsoleOut(n) => n.position,
        }
    }

    pub open spec fn spec_links(self) -> Links {
        match self {
            Node::Instruction(n) => n.links,
            Node::ConsoleIn(n) => n.links,
            Node::ConsoleOut(n) => n.links,
            Node::NumberConsoleIn(n) => n.links,
            Node::NumberConsoleOut(n) => n.links,
        }
    }

    /// The node's port; a writer's port never offers anything.
    pub open spec fn spec_port(self) -> Port {
        match self {
            Node::Instruction(n) => n.port,
            Node::ConsoleIn(n) => n.port,
            Node::NumberConsoleIn(n) => n.port,
            _ => idle_port(),
        }
    }

    /// The node with its port replaced; a writer has no port to replace.
    pub open spec fn with_port(self, p: Port) -> Node {
        match self {
            Node::Instruction(n) => Node::Instruction(InstructionNode { port: p, ..n }),
            Node::ConsoleIn(n) => Node::ConsoleIn(ConsoleInNode { port: p, ..n }),
            Node::NumberConsoleIn(n) => Node::NumberConsoleIn(NumberConsoleInNode { port: p, ..n }),
            _ => self,
        }
    }

    pub open spec fn with_link(self, d: Direction, i: usize) -> Node {
        match self {
            Node::Instruction(n) => Node::Instruction(
                InstructionNode { links: n.links.set(d, i), ..n },
            ),
            Node::ConsoleIn(n) => Node::ConsoleIn(ConsoleInNode { links: n.links.set(d, i), ..n }),
            Node::ConsoleOut(n) => Node::ConsoleOut(
                ConsoleOutNode { links: n.links.set(d, i), ..n },
            ),
            Node::NumberConsoleIn(n) => Node::NumberConsoleIn(
                NumberConsoleInNode { links: n.links.set(d, i), ..n },
            ),
            Node::NumberConsoleOut(n) => Node::NumberConsoleOut(
                NumberConsoleOutNode { links: n.links.set(d, i), ..n },
            ),
        }
    }

    /// A node not yet placed: no links, and a settled port.
    pub open spec fn is_fresh(self) -> bool {
        &&& forall|d: Direction| self.spec_links().get(d) is None
        &&& port_settled(self.spec_port())
    }

    /// One step of the node in phase A, given its neighbours' ports: the node, the
    /// neighbours' ports and what is printed afterwards. Readers do not step.
    pub open spec fn stepped(self, nb: Neighbors) -> (Node, Neighbors, Seq<Output>) {
        match self {
            Node::Instruction(n) => (Node::Instruction(n.step(nb).0), n.step(nb).1, Seq::empty()),
            Node::ConsoleOut(_) => (
                self,
                nb.after_read_all(),
                byte_of(nb.value_at(Direction::Up)) + byte_of(nb.value_at(Direction::Left))
                    + byte_of(nb.value_at(Direction::Right)) + byte_of(
                    nb.value_at(Direction::Down),
                ),
            ),
            Node::NumberConsoleOut(_) => (
                self,
                nb.after_read_all(),
                number_of(nb.value_at(Direction::Up)) + number_of(nb.value_at(Direction::Left))
                    + number_of(nb.value_at(Direction::Right)) + number_of(
                    nb.value_at(Direction::Down),
                ),
            ),
            _ => (self, nb, Seq::empty()),
        }
    }

    /// The node after phase B.
    pub open spec fn spec_committed(self) -> Node {
        match self {
            Node::Instruction(n) => Node::Instruction(n.committed()),
            _ => self,
        }
    }

    /// The node at the start of its hand-over in phase C, and the direction of the
    /// receiver it hands over to, if any.
    pub open spec fn spec_handed(self) -> (Node, Option<Direction>) {
        match self {
            Node::Instruction(n) => (Node::Instruction(n.handed()), n.port.giving_to),
            Node::ConsoleIn(n) => (
                Node::ConsoleIn(n.handed()),
                if n.spec_wants_input() {
                    None
                } else {
                    n.port.giving_to
                },
            ),
            Node::NumberConsoleIn(n) => (
                Node::NumberConsoleIn(n.handed()),
                if n.spec_wants_input() {
                    None
                } else {
                    n.port.giving_to
                },
            ),
            _ => (self, None),
        }
    }

    /// The node at the end of its hand-over.
    pub open spec fn spec_released(self) -> Node {
        match self {
            Node::Instruction(n) => Node::Instruction(n.released()),
            Node::ConsoleIn(n) => Node::ConsoleIn(n.released()),
            Node::NumberConsoleIn(n) => Node::NumberConsoleIn(n.released()),
            _ => self,
        }
    }

    /// Whether a reader of input is waiting for a line or a number.
    pub open spec fn spec_wants_input(self) -> bool {
        match self {
            Node::ConsoleIn(n) => n.spec_wants_input(),
            Node::NumberConsoleIn(n) => n.spec_wants_input(),
            _ => false,
        }
    }

    pub proof fn lemma_with_link(self, d: Direction, i: usize)
        ensures
            self.with_link(d, i).spec_position() == self.spec_position(),
            self.with_link(d, i).spec_port() == self.spec_port(),
            forall|e: Direction|
                #[trigger] self.with_link(d, i).spec_links().get(e) == if e == d {
                    Some(i)
                } else {
                    self.spec_links().get(e)
                },
    {
    }

    pub fn position(&self) -> (r: Position)
        ensures
            r == self.spec_position(),
    {
        match self {
            Node::Instruction(n) => n.position,
            Node::ConsoleIn(n) => n.position,
            Node::ConsoleOut(n) => n.position,
            Node::NumberConsoleIn(n) => n.position,
            Node::NumberConsoleOut(n) => n.position,
        }
    }

    pub fn links(&self) -> (r: Links)
        ensures
            r == self.spec_links(),
    {
        match self {
            Node::Instruction(n) => n.links,
            Node::ConsoleIn(n) => n.links,
            Node::ConsoleOut(n) => n.links,
            Node::NumberConsoleIn(n) => n.links,
            Node::NumberConsoleOut(n) => n.links,
        }
    }

    pub fn port(&self) -> (r: Port)
        ensures
            r == self.spec_port(),
    {
        match self {
            Node::Instruction(n) => n.port,
            Node::ConsoleIn(n) => n.port,
            Node::NumberConsoleIn(n) => n.port,
            _ => Port::new_idle(),
        }
    }

    fn set_port(&mut self, p: Port)
        ensures
            *final(self) == old(self).with_port(p),
    {
        match self {
            Node::Instruction(n) => n.port = p,
            Node::ConsoleIn(n) => n.port = p,
            Node::NumberConsoleIn(n) => n.port = p,
            _ => {},
        }
    }

    /// Links the neighbour in direction `dir` to the node at index `node`.
    pub fn set_dir(&mut self, dir: Direction, node: usize)
        ensures
            *final(self) == old(self).with_link(dir, node),
    {
        match self {
            Node::Instruction(n) => n.links.set_dir(dir, node),
            Node::ConsoleIn(n) => n.links.set_dir(dir, node),
            Node::ConsoleOut(n) => n.links.set_dir(dir, node),
            Node::NumberConsoleIn(n) => n.links.set_dir(dir, node),
            Node::NumberConsoleOut(n) => n.links.set_dir(dir, node),
        }
    }
}

/// Whether the link of node `i` in direction `d` names exactly the node one step away
/// in that direction, if there is one.
pub open spec fn link_ok(s: Seq<Node>, i: int, d: Direction) -> bool {
    link_target_ok(s, s[i].spec_position(), d, s[i].spec_links().get(d))
}

/// Whether `link`, held by a node at `p` for direction `d`, names exactly the node of
/// `s` one step away in that direction, if there is one.
pub open spec fn link_target_ok(s: Seq<Node>, p: Position, d: Direction, link: Option<usize>) -> bool {
    match link {
        Some(j) => j < s.len() && p.is_neighbour(d, s[j as int].spec_position()),
        None => forall|j: int|
            0 <= j < s.len() ==> !p.is_neighbour(d, #[trigger] s[j].spec_position()),
    }
}

/// No two nodes share a position.
pub open spec fn positions_unique(s: Seq<Node>) -> bool {
    forall|i: int, j: int|
        0 <= i < s.len() && 0 <= j < s.len() && i != j ==> #[trigger] s[i].spec_position()
            != #[trigger] s[j].spec_position()
}

/// Every link names the neighbour at the matching position, and every neighbour is
/// linked.
pub open spec fn links_exact(s: Seq<Node>) -> bool {
    forall|i: int, d: Direction| 0 <= i < s.len() ==> #[trigger] link_ok(s, i, d)
}

pub open spec fn ports_settled(s: Seq<Node>) -> bool {
    forall|i: int| 0 <= i < s.len() ==> port_settled(#[trigger] s[i].spec_port())
}

/// Whether two node sequences have the same nodes at the same places with the same links.
pub open spec fn same_layout(s: Seq<Node>, t: Seq<Node>) -> bool {
    &&& s.len() == t.len()
    &&& forall|i: int|
        0 <= i < s.len() ==> (#[trigger] t[i]).spec_position() == s[i].spec_position()
            && t[i].spec_links() == s[i].spec_links()
}

/// Whether every port of `t` can follow the port of the same node of `s` through reads.
pub open spec fn ports_evolved(s: Seq<Node>, t: Seq<Node>) -> bool {
    forall|i: int| 0 <= i < s.len() ==> port_evolved(s[i].spec_port(), #[trigger] t[i].spec_port())
}

/// The port of the linked node, if there is a link.
pub open spec fn port_of(s: Seq<Node>, link: Option<usize>) -> Option<Port> {
    match link {
        Some(j) => Some(s[j as int].spec_port()),
        None => None,
    }
}

/// The ports of the neighbours of node `i`.
pub open spec fn gathered(s: Seq<Node>, i: int) -> Neighbors {
    let l = s[i].spec_links();
    Neighbors {
        up: port_of(s, l.up),
        left: port_of(s, l.left),
        right: port_of(s, l.right),
        down: port_of(s, l.down),
    }
}

/// `s` with port `p` written to the linked node, where there are both.
pub open spec fn put(s: Seq<Node>, link: Option<usize>, p: Option<Port>) -> Seq<Node> {
    match (link, p) {
        (Some(j), Some(p)) => s.update(j as int, s[j as int].with_port(p)),
        _ => s,
    }
}

/// `s` with the ports of `nb` written back to the nodes that `l` links.
pub open spec fn scattered(s: Seq<Node>, l: Links, nb: Neighbors) -> Seq<Node> {
    put(put(put(put(s, l.up, nb.up), l.left, nb.left), l.right, nb.right), l.down, nb.down)
}

/// The nodes and what is printed after node `i` steps.
pub open spec fn ticked(s: Seq<Node>, i: int) -> (Seq<Node>, Seq<Output>) {
    let (n, nb, out) = s[i].stepped(gathered(s, i));
    (scattered(s.update(i, n), s[i].spec_links(), nb), out)
}

/// Phase A over the first `k` nodes.
pub open spec fn phase_a(s: Seq<Node>, k: nat) -> (Seq<Node>, Seq<Output>)
    decreases k,
{
    if k == 0 {
        (s, Seq::empty())
    } else {
        let (s1, o1) = phase_a(s, (k - 1) as nat);
        let (s2, o2) = ticked(s1, k - 1);
        (s2, o1 + o2)
    }
}

/// Phase B over the first `k` nodes.
pub open spec fn phase_b(s: Seq<Node>, k: nat) -> Seq<Node>
    decreases k,
{
    if k == 0 {
        s
    } else {
        let s1 = phase_b(s, (k - 1) as nat);
        s1.update(k - 1, s1[k - 1].spec_committed())
    }
}

/// The hand-over of node `k`: when a receiver has claimed its offer, the offer is
/// marked given, the receiver steps once more, and the port is freed.
pub open spec fn hand_over(s: Seq<Node>, k: int) -> (Seq<Node>, Seq<Output>) {
    let (n, partner) = s[k].spec_handed();
    let s1 = s.update(k, n);
    match partner {
        None => (s1, Seq::empty()),
        Some(t) => {
            let (s2, out) = match s[k].spec_links().get(t) {
                Some(j) => ticked(s1, j as int),
                None => (s1, Seq::empty()),
            };
            (s2.update(k, s2[k].spec_released()), out)
        },
    }
}

/// Phase C over the first `k` nodes.
pub open spec fn phase_c(s: Seq<Node>, k: nat) -> (Seq<Node>, Seq<Output>)
    decreases k,
{
    if k == 0 {
        (s, Seq::empty())
    } else {
        let (s1, o1) = phase_c(s, (k - 1) as nat);
        let (s2, o2) = hand_over(s1, k - 1);
        (s2, o1 + o2)
    }
}

/// The grid: owns every node; nodes refer to their neighbours by index.
pub struct TIS {
    nodes: Vec<Node>,
}

impl View for TIS {
    type V = Seq<Node>;

    closed spec fn view(&self) -> Seq<Node> {
        self.nodes@
    }
}

impl TIS {
    /// The grid between ticks: one node per position, links matching positions, and
    /// every port settled.
    pub open spec fn wf(self) -> bool {
        &&& positions_unique(self@)
        &&& links_exact(self@)
        &&& ports_settled(self@)
    }

    /// Whether some node stands at `p`.
    pub open spec fn occupied(self, p: Position) -> bool {
        exists|i: int| 0 <= i < self@.len() && #[trigger] self@[i].spec_position() == p
    }

    pub fn new() -> (r: TIS)
        ensures
            r@.len() == 0,
            r.wf(),
    {
        TIS { nodes: Vec::new() }
    }

    pub fn len(&self) -> (r: usize)
        ensures
            r == self@.len(),
    {
        self.nodes.len()
    }

    pub fn node(&self, i: usize) -> (r: &Node)
        requires
            i < self@.len(),
        ensures
            *r == self@[i as int],
    {
        &self.nodes[i]
    }

    /// Index of the node at `p`, if any.
    pub fn node_at(&self, p: Position) -> (r: Option<usize>)
        ensures
            match r {
                Some(i) => i < self@.len() && self@[i as int].spec_position() == p,
                None => !self.occupied(p),
            },
    {
        let mut i: usize = 0;
        while i < self.nodes.len()
            invariant
                i <= self.nodes@.len(),
                forall|k: int| 0 <= k < i ==> #[trigger] self.nodes@[k].spec_position() != p,
            decreases self.nodes@.len() - i,
        {
            if self.nodes[i].position() == p {
                return Some(i);
            }
            i = i + 1;
        }
        None
    }

    /// Places `node` at its position and links it with the neighbours already placed.
    pub fn add_node(&mut self, node: Node)
        requires
            old(self).wf(),
            !old(self).occupied(node.spec_position()),
            forall|d: Direction| node.spec_links().get(d) is None,
            port_settled(node.spec_port()),
            old(self)@.len() < usize::MAX,
        ensures
            final(self).wf(),
            final(self)@.len() == old(self)@.len() + 1,
            final(self)@.last().spec_position() == node.spec_position(),
            forall|i: int|
                0 <= i < old(self)@.len() ==> (#[trigger] final(self)@[i]).spec_position()
                    == old(self)@[i].spec_position(),
    {
        let mut node = node;
        let idx = self.nodes.len();
        let pos = node.position();
        let ghost s0 = self.nodes@;
        let mut k: usize = 0;
        while k < 4
            invariant
                k <= 4,
                idx == old(self)@.len(),
                s0 == old(self)@,
                old(self).wf(),
                !old(self).occupied(pos),
                pos == node.spec_position(),
                port_settled(node.spec_port()),
                self.nodes@.len() == old(self)@.len(),
                forall|i: int|
                    0 <= i < old(self)@.len() ==> (#[trigger] self.nodes@[i]).spec_position()
                        == old(self)@[i].spec_position() && self.nodes@[i].spec_port()
                        == old(self)@[i].spec_port(),
                // Links of the new node: set exactly for the directions handled so far.
                forall|d: Direction|
                    crate::direction::rank(d) < k ==> link_target_ok(
                        old(self)@,
                        pos,
                        d,
                        #[trigger] node.spec_links().get(d),
                    ),
                forall|d: Direction|
                    crate::direction::rank(d) >= k ==> #[trigger] node.spec_links().get(d)
                        is None,
                // Links of the old nodes: unchanged except towards the new node.
                forall|i: int, d: Direction|
                    0 <= i < old(self)@.len() ==> #[trigger] self.nodes@[i].spec_links().get(d) == if old(self)@[i].spec_position().is_neighbour(d, pos)
                        && crate::direction::rank(opposite(d)) < k {
                        Some(idx)
                    } else {
                        old(self)@[i].spec_links().get(d)
                    },
            decreases 4 - k,
        {
            let d = Direction::from_rank(k);
            proof {
                crate::direction::lemma_rank_bijective(d);
            }
            let ghost node0 = node;
            let ghost nodes0 = self.nodes@;
            let target = pos.checked_in_direction(d);
            let found = match target {
                Some(p) => self.node_at(p),
                None => None,
            };
            match found {
                Some(j) => {
                    let p = target.unwrap();
                    proof {
                        lemma_step_back(pos, d, p);
                        node.lemma_with_link(d, j);
                        self.nodes@[j as int].lemma_with_link(opposite(d), idx);
                    }
                    self.nodes[j].set_dir(d.opposite(), idx);
                    node.set_dir(d, j);
                    proof {
                        assert forall|i: int, e: Direction|
                            0 <= i < old(self)@.len() && i != j implies #[trigger] self.nodes@[i].spec_links().get(e)
                            == nodes0[i].spec_links().get(e) by {}
                        assert forall|i: int|
                            0 <= i < old(self)@.len() && i != j && old(self)@[i].spec_position().is_neighbour(
                                opposite(d), pos) implies false by {
                            assert(old(self)@[i].spec_position() == p);
                        }
                    }
                },
                None => {
                    proof {
                        assert forall|j: int| 0 <= j < old(self)@.len() implies !pos.is_neighbour(
                            d,
                            #[trigger] old(self)@[j].spec_position(),
                        ) by {
                            if pos.is_neighbour(d, old(self)@[j].spec_position()) {
                                assert(pos.has_neighbour(d));
                                let p = target.unwrap();
                                assert(pos.is_neighbour(d, p));
                                assert(old(self)@[j].spec_position() == p);
                                assert(self.nodes@[j].spec_position() == p);
                                assert(self.occupied(p));
                            }
                        }
                    }
                },
            }
            k = k + 1;
        }
        self.nodes.push(node);
        proof {
            let s1 = self.nodes@;
            assert(s1[idx as int] == node);
            assert forall|i: int, j: int|
                0 <= i < s1.len() && 0 <= j < s1.len() && i != j implies #[trigger] s1[i].spec_position()
                    != #[trigger] s1[j].spec_position() by {
                if i < idx && j < idx {
                    assert(s0[i].spec_position() != s0[j].spec_position());
                } else if i < idx {
                    assert(s0[i].spec_position() == s1[i].spec_position());
                } else {
                    assert(s0[j].spec_position() == s1[j].spec_position());
                }
            }
            assert forall|i: int, d: Direction| 0 <= i < s1.len() implies #[trigger] link_ok(
                s1,
                i,
                d,
            ) by {
                crate::direction::lemma_rank_bijective(d);
                if i < idx {
                    assert(link_ok(s0, i, d));
                    assert(s1[i].spec_links().get(d) == self.nodes@[i].spec_links().get(d));
                    if !s0[i].spec_position().is_neighbour(d, pos) {
                        match s0[i].spec_links().get(d) {
                            Some(j) => {},
                            None => {
                                assert forall|j: int| 0 <= j < s1.len() implies !s1[i].spec_position().is_neighbour(
                                    d,
                                    #[trigger] s1[j].spec_position(),
                                ) by {
                                    if j < idx {
                                        assert(s1[j].spec_position() == s0[j].spec_position());
                                    }
                                }
                            },
                        }
                    }
                } else {
                    assert(i == idx);
                    match node.spec_links().get(d) {
                        Some(j) => {},
                        None => {
                            assert forall|j: int| 0 <= j < s1.len() implies !s1[i].spec_position().is_neighbour(
                                d,
                                #[trigger] s1[j].spec_position(),
                            ) by {
                                if j < idx {
                                    assert(s1[j].spec_position() == s0[j].spec_position());
                                }
                            }
                        },
                    }
                }
            }
            assert forall|i: int| 0 <= i < s1.len() implies port_settled(
                #[trigger] s1[i].spec_port(),
            ) by {
                if i < idx {
                    assert(port_settled(s0[i].spec_port()));
                }
            }
        }
    }

    /// Phases A and B of a tick: every node steps, then staged writes become offers.
    /// Returns what the writers print meanwhile.
    pub fn begin_tick(&mut self) -> (r: Vec<Output>)
        requires
            old(self).wf(),
        ensures
            final(self).wf(),
            final(self)@ == phase_b(
                phase_a(old(self)@, old(self)@.len()).0,
                old(self)@.len(),
            ),
            r@ == phase_a(old(self)@, old(self)@.len()).1,
            same_layout(old(self)@, final(self)@),
    {
        let ghost s0 = self@;
        let n = self.nodes.len();
        let mut out: Vec<Output> = Vec::new();
        let mut i: usize = 0;
        while i < n
            invariant
                s0 == old(self)@,
                old(self).wf(),
                n == s0.len(),
                i <= n,
                (self@, out@) == phase_a(s0, i as nat),
            decreases n - i,
        {
            proof {
                lemma_phase_a_frame(s0, i as nat);
                lemma_layout_keeps_links(s0, self@);
            }
            self.tick_node(i, &mut out);
            i = i + 1;
        }
        proof {
            lemma_phase_a_frame(s0, n as nat);
            lemma_evolved_settled(s0, self@);
        }
        let ghost sa = self@;
        let mut i: usize = 0;
        while i < n
            invariant
                n == sa.len(),
                i <= n,
                self@ == phase_b(sa, i as nat),
                ports_settled(sa),
            decreases n - i,
        {
            proof {
                lemma_phase_b_frame(sa, i as nat);
            }
            match &mut self.nodes[i] {
                Node::Instruction(node) => node.handle_give(),
                _ => {},
            }
            i = i + 1;
        }
        proof {
            lemma_phase_b_frame(sa, n as nat);
            lemma_layout_trans(s0, sa, self@);
            lemma_layout_keeps_links(s0, self@);
        }
        out
    }

    /// Phase C of a tick: every node whose offer was claimed hands it over; the
    /// receiver steps once more to take the value, and the port is freed. A reader of
    /// input with nothing at hand keeps its claim for a later tick.
    pub fn finish_tick(&mut self) -> (r: Vec<Output>)
        requires
            old(self).wf(),
        ensures
            final(self).wf(),
            final(self)@ == phase_c(old(self)@, old(self)@.len()).0,
            r@ == phase_c(old(self)@, old(self)@.len()).1,
            same_layout(old(self)@, final(self)@),
    {
        let ghost s0 = self@;
        let n = self.nodes.len();
        let mut out: Vec<Output> = Vec::new();
        let mut k: usize = 0;
        while k < n
            invariant
                s0 == old(self)@,
                old(self).wf(),
                n == s0.len(),
                k <= n,
                (self@, out@) == phase_c(s0, k as nat),
            decreases n - k,
        {
            proof {
                lemma_phase_c_frame(s0, k as nat);
                lemma_layout_keeps_links(s0, self@);
            }
            let ghost sk = self@;
            let partner = match &mut self.nodes[k] {
                Node::Instruction(node) => node.post_handle_give(),
                Node::ConsoleIn(node) => node.post_handle_give(),
                Node::NumberConsoleIn(node) => node.post_handle_give(),
                _ => None,
            };
            assert(self@ == sk.update(k as int, sk[k as int].spec_handed().0));
            if let Some(t) = partner {
                let l = self.nodes[k].links();
                proof {
                    assert(link_ok(sk, k as int, t));
                    assert(same_layout(sk, self@));
                    lemma_layout_keeps_links(sk, self@);
                }
                if let Some(j) = l.get_link(t) {
                    proof {
                        lemma_ticked_frame(self@, j as int);
                    }
                    self.tick_node(j, &mut out);
                }
                match &mut self.nodes[k] {
                    Node::Instruction(node) => node.post_post_handle_give(),
                    Node::ConsoleIn(node) => node.post_post_handle_give(),
                    Node::NumberConsoleIn(node) => node.post_post_handle_give(),
                    _ => {},
                }
            }
            k = k + 1;
        }
        proof {
            lemma_phase_c_frame(s0, n as nat);
            lemma_layout_keeps_links(s0, self@);
        }
        out
    }

    /// One global tick: phases A, B and C. Returns what the writers print, in order.
    pub fn tick(&mut self) -> (r: Vec<Output>)
        requires
            old(self).wf(),
        ensures
            final(self).wf(),
            ({
                let n = old(self)@.len();
                let (sa, oa) = phase_a(old(self)@, n);
                let (sc, oc) = phase_c(phase_b(sa, n), n);
                final(self)@ == sc && r@ == oa + oc
            }),
            same_layout(old(self)@, final(self)@),
    {
        let mut out = self.begin_tick();
        let mut rest = self.finish_tick();
        out.append(&mut rest);
        out
    }

    /// Indices of the readers of input that hold a claimed offer and nothing to hand
    /// over, in increasing order.
    pub fn inputs_wanted(&self) -> (r: Vec<usize>)
        ensures
            forall|k: int| 0 <= k < r@.len() ==> r@[k] < self@.len() && self@[r@[k] as int].spec_wants_input(),
            forall|i: int| 0 <= i < self@.len() && (#[trigger] self@[i]).spec_wants_input() ==> r@.contains(i as usize),
            forall|a: int, b: int| 0 <= a < b < r@.len() ==> r@[a] < r@[b],
    {
        let mut r: Vec<usize> = Vec::new();
        let mut i: usize = 0;
        while i < self.nodes.len()
            invariant
                i <= self@.len(),
                forall|k: int| 0 <= k < r@.len() ==> r@[k] < i && self@[r@[k] as int].spec_wants_input(),
                forall|j: int| 0 <= j < i && (#[trigger] self@[j]).spec_wants_input() ==> r@.contains(j as usize),
                forall|a: int, b: int| 0 <= a < b < r@.len() ==> r@[a] < r@[b],
            decreases self@.len() - i,
        {
            let wants = match &self.nodes[i] {
                Node::ConsoleIn(node) => node.wants_input(),
                Node::NumberConsoleIn(node) => node.wants_input(),
                _ => false,
            };
            if wants {
                let ghost r0 = r@;
                r.push(i);
                assert(r@[r@.len() - 1] == i);
                assert forall|j: int| 0 <= j < i + 1 && (#[trigger] self@[j]).spec_wants_input() implies r@.contains(j as usize) by {
                    if j < i {
                        assert(r0.contains(j as usize));
                        let w = choose|w: int| 0 <= w < r0.len() && r0[w] == j as usize;
                        assert(r@[w] == j as usize);
                    }
                }
            }
            i = i + 1;
        }
        r
    }

    /// Gives a line of input to the byte reader at index `i`; returns whether there is
    /// one there.
    pub fn supply_line(&mut self, i: usize, line: Vec<u8>) -> (r: bool)
        requires
            old(self).wf(),
        ensures
            final(self).wf(),
            same_layout(old(self)@, final(self)@),
            r == (i < old(self)@.len() && old(self)@[i as int] is ConsoleIn),
            r ==> final(self)@ == old(self)@.update(i as int, final(self)@[i as int]) && match (old(self)@[i as int], final(self)@[i as int]) {
                (Node::ConsoleIn(a), Node::ConsoleIn(b)) => b.pending() == a.pending() + line@ && b.port == a.port,
                _ => false,
            },
            !r ==> final(self)@ == old(self)@,
    {
        if i >= self.nodes.len() {
            return false;
        }
        let ghost s0 = self@;
        let ok = match &mut self.nodes[i] {
            Node::ConsoleIn(node) => {
                node.supply_line(line);
                true
            },
            _ => false,
        };
        proof {
            if ok {
                assert(same_layout(s0, self@));
                lemma_layout_keeps_links(s0, self@);
                assert forall|k: int| 0 <= k < self@.len() implies port_settled(#[trigger] self@[k].spec_port()) by {
                    assert(port_settled(s0[k].spec_port()));
                }
            } else {
                assert(self@ =~= s0);
            }
        }
        ok
    }

    /// Gives the next value to the integer reader at index `i`; returns whether there is
    /// one there.
    pub fn supply_number(&mut self, i: usize, value: Number) -> (r: bool)
        requires
            old(self).wf(),
        ensures
            final(self).wf(),
            same_layout(old(self)@, final(self)@),
            r == (i < old(self)@.len() && old(self)@[i as int] is NumberConsoleIn),
            r ==> final(self)@ == old(self)@.update(i as int, final(self)@[i as int]) && match (old(self)@[i as int], final(self)@[i as int]) {
                (Node::NumberConsoleIn(a), Node::NumberConsoleIn(b)) => b == (NumberConsoleInNode { pending: Some(value), ..a }),
                _ => false,
            },
            !r ==> final(self)@ == old(self)@,
    {
        if i >= self.nodes.len() {
            return false;
        }
        let ghost s0 = self@;
        let ok = match &mut self.nodes[i] {
            Node::NumberConsoleIn(node) => {
                node.supply_number(value);
                true
            },
            _ => false,
        };
        proof {
            if ok {
                assert(same_layout(s0, self@));
                lemma_layout_keeps_links(s0, self@);
                assert forall|k: int| 0 <= k < self@.len() implies port_settled(#[trigger] self@[k].spec_port()) by {
                    assert(port_settled(s0[k].spec_port()));
                }
            } else {
                assert(self@ =~= s0);
            }
        }
        ok
    }

    /// Places `node` unless its position is taken; returns whether it was placed.
    pub fn place(&mut self, node: Node) -> (r: bool)
        requires
            old(self).wf(),
            node.is_fresh(),
            old(self)@.len() < usize::MAX,
        ensures
            final(self).wf(),
            r == !old(self).occupied(node.spec_position()),
            r ==> final(self)@.len() == old(self)@.len() + 1 && final(self)@.last().spec_position()
                == node.spec_position(),
            !r ==> final(self)@ == old(self)@,
    {
        if self.node_at(node.position()).is_some() {
            return false;
        }
        self.add_node(node);
        true
    }

    fn gather(&self, i: usize) -> (r: Neighbors)
        requires
            i < self@.len(),
            links_exact(self@),
        ensures
            r == gathered(self@, i as int),
    {
        let l = self.nodes[i].links();
        proof {
            assert(link_ok(self@, i as int, Direction::Up));
            assert(link_ok(self@, i as int, Direction::Left));
            assert(link_ok(self@, i as int, Direction::Right));
            assert(link_ok(self@, i as int, Direction::Down));
        }
        Neighbors {
            up: self.port_at(l.up),
            left: self.port_at(l.left),
            right: self.port_at(l.right),
            down: self.port_at(l.down),
        }
    }

    fn port_at(&self, link: Option<usize>) -> (r: Option<Port>)
        requires
            link matches Some(j) ==> j < self@.len(),
        ensures
            r == port_of(self@, link),
    {
        match link {
            Some(j) => Some(self.nodes[j].port()),
            None => None,
        }
    }

    fn put_port(&mut self, link: Option<usize>, p: Option<Port>)
        requires
            link matches Some(j) ==> j < old(self)@.len(),
        ensures
            final(self)@ == put(old(self)@, link, p),
    {
        if let Some(j) = link {
            if let Some(p) = p {
                self.nodes[j].set_port(p);
            }
        }
    }

    /// Lets node `i` step, reading and registering on its neighbours' ports.
    fn tick_node(&mut self, i: usize, out: &mut Vec<Output>)
        requires
            i < old(self)@.len(),
            links_exact(old(self)@),
        ensures
            (final(self)@, final(out)@) == (
                ticked(old(self)@, i as int).0,
                old(out)@ + ticked(old(self)@, i as int).1,
            ),
    {
        let l = self.nodes[i].links();
        let mut nb = self.gather(i);
        proof {
            assert(link_ok(self@, i as int, Direction::Up));
            assert(link_ok(self@, i as int, Direction::Left));
            assert(link_ok(self@, i as int, Direction::Right));
            assert(link_ok(self@, i as int, Direction::Down));
        }
        let mut printed: Vec<Output> = match &mut self.nodes[i] {
            Node::Instruction(n) => {
                n.tick(&mut nb);
                Vec::new()
            },
            Node::ConsoleOut(n) => n.tick(&mut nb),
            Node::NumberConsoleOut(n) => n.tick(&mut nb),
            _ => Vec::new(),
        };
        self.put_port(l.up, nb.up);
        self.put_port(l.left, nb.left);
        self.put_port(l.right, nb.right);
        self.put_port(l.down, nb.down);
        out.append(&mut printed);
    }
}

/// A sequence with the layout of a well-formed one is well formed in its layout.
pub proof fn lemma_layout_keeps_links(s: Seq<Node>, t: Seq<Node>)
    requires
        same_layout(s, t),
        positions_unique(s),
        links_exact(s),
    ensures
        positions_unique(t),
        links_exact(t),
{
    assert forall|i: int, j: int|
        0 <= i < t.len() && 0 <= j < t.len() && i != j implies #[trigger] t[i].spec_position()
            != #[trigger] t[j].spec_position() by {
        assert(s[i].spec_position() != s[j].spec_position());
        assert(t[i].spec_position() == s[i].spec_position());
        assert(t[j].spec_position() == s[j].spec_position());
    }
    assert forall|i: int, d: Direction| 0 <= i < t.len() implies #[trigger] link_ok(t, i, d) by {
        assert(link_ok(s, i, d));
        assert(t[i].spec_position() == s[i].spec_position());
        match s[i].spec_links().get(d) {
            Some(j) => {
                assert(t[j as int].spec_position() == s[j as int].spec_position());
            },
            None => {
                assert forall|j: int| 0 <= j < t.len() implies !t[i].spec_position().is_neighbour(
                    d,
                    #[trigger] t[j].spec_position(),
                ) by {
                    assert(t[j].spec_position() == s[j].spec_position());
                }
            },
        }
    }
}

proof fn lemma_put_frame(s: Seq<Node>, t: Seq<Node>, link: Option<usize>, p: Option<Port>)
    requires
        same_layout(s, t),
        ports_evolved(s, t),
        link matches Some(j) ==> j < s.len(),
        (link, p) matches (Some(j), Some(q)) ==> port_evolved(s[j as int].spec_port(), q),
    ensures
        same_layout(s, put(t, link, p)),
        ports_evolved(s, put(t, link, p)),
{
    if let (Some(j), Some(q)) = (link, p) {
        let u = put(t, link, p);
        assert forall|i: int| 0 <= i < s.len() implies (#[trigger] u[i]).spec_position()
            == s[i].spec_position() && u[i].spec_links() == s[i].spec_links() by {
            if i == j {
                assert(t[i].spec_position() == s[i].spec_position());
            } else {
                assert(t[i].spec_position() == s[i].spec_position());
            }
        }
        assert forall|i: int| 0 <= i < s.len() implies port_evolved(
            s[i].spec_port(),
            #[trigger] u[i].spec_port(),
        ) by {
            assert(port_evolved(s[i].spec_port(), t[i].spec_port()));
        }
    }
}

/// A node's step keeps every node's place and links, and only reads ports.
pub proof fn lemma_ticked_frame(s: Seq<Node>, i: int)
    requires
        0 <= i < s.len(),
        links_exact(s),
    ensures
        same_layout(s, ticked(s, i).0),
        ports_evolved(s, ticked(s, i).0),
        ticked(s, i).0.len() == s.len(),
{
    let nb = gathered(s, i);
    let (n, nb2, out) = s[i].stepped(nb);
    nb.lemma_reads_evolved();
    if let Node::Instruction(c) = s[i] {
        c.lemma_step_frame(nb);
    }
    assert(port_evolved(s[i].spec_port(), n.spec_port()));
    let t0 = s.update(i, n);
    assert(same_layout(s, t0));
    assert(ports_evolved(s, t0));
    let l = s[i].spec_links();
    assert(link_ok(s, i, Direction::Up));
    assert(link_ok(s, i, Direction::Left));
    assert(link_ok(s, i, Direction::Right));
    assert(link_ok(s, i, Direction::Down));
    assert(neighbors_evolved(nb, nb2));
    assert(nb.get(Direction::Up) == port_of(s, l.up));
    assert(nb.get(Direction::Left) == port_of(s, l.left));
    assert(nb.get(Direction::Right) == port_of(s, l.right));
    assert(nb.get(Direction::Down) == port_of(s, l.down));
    lemma_put_frame(s, t0, l.up, nb2.up);
    let t1 = put(t0, l.up, nb2.up);
    lemma_put_frame(s, t1, l.left, nb2.left);
    let t2 = put(t1, l.left, nb2.left);
    lemma_put_frame(s, t2, l.right, nb2.right);
    let t3 = put(t2, l.right, nb2.right);
    lemma_put_frame(s, t3, l.down, nb2.down);
}

proof fn lemma_evolved_trans(s: Seq<Node>, t: Seq<Node>, u: Seq<Node>)
    requires
        same_layout(s, t),
        ports_evolved(s, t),
        ports_evolved(t, u),
    ensures
        ports_evolved(s, u),
{
    assert forall|i: int| 0 <= i < s.len() implies port_evolved(
        s[i].spec_port(),
        #[trigger] u[i].spec_port(),
    ) by {
        assert(port_evolved(s[i].spec_port(), t[i].spec_port()));
        assert(port_evolved(t[i].spec_port(), u[i].spec_port()));
    }
}

proof fn lemma_layout_trans(s: Seq<Node>, t: Seq<Node>, u: Seq<Node>)
    requires
        same_layout(s, t),
        same_layout(t, u),
    ensures
        same_layout(s, u),
{
    assert forall|i: int| 0 <= i < s.len() implies (#[trigger] u[i]).spec_position()
        == s[i].spec_position() && u[i].spec_links() == s[i].spec_links() by {
        assert(t[i].spec_position() == s[i].spec_position());
    }
}

proof fn lemma_evolved_settled(s: Seq<Node>, t: Seq<Node>)
    requires
        same_layout(s, t),
        ports_evolved(s, t),
        ports_settled(s),
    ensures
        ports_settled(t),
{
    assert forall|i: int| 0 <= i < t.len() implies port_settled(#[trigger] t[i].spec_port()) by {
        assert(port_settled(s[i].spec_port()));
        assert(port_evolved(s[i].spec_port(), t[i].spec_port()));
    }
}

/// Phase A keeps the layout and only reads ports.
pub proof fn lemma_phase_a_frame(s: Seq<Node>, k: nat)
    requires
        k <= s.len(),
        positions_unique(s),
        links_exact(s),
    ensures
        same_layout(s, phase_a(s, k).0),
        ports_evolved(s, phase_a(s, k).0),
    decreases k,
{
    if k == 0 {
        assert(ports_evolved(s, s)) by {
            assert forall|i: int| 0 <= i < s.len() implies port_evolved(
                s[i].spec_port(),
                #[trigger] s[i].spec_port(),
            ) by {}
        }
    } else {
        lemma_phase_a_frame(s, (k - 1) as nat);
        let s1 = phase_a(s, (k - 1) as nat).0;
        lemma_layout_keeps_links(s, s1);
        lemma_ticked_frame(s1, k - 1);
        lemma_layout_trans(s, s1, ticked(s1, k - 1).0);
        lemma_evolved_trans(s, s1, ticked(s1, k - 1).0);
    }
}

/// Phase B keeps the layout and leaves settled ports settled.
pub proof fn lemma_phase_b_frame(s: Seq<Node>, k: nat)
    requires
        k <= s.len(),
        ports_settled(s),
    ensures
        same_layout(s, phase_b(s, k)),
        ports_settled(phase_b(s, k)),
    decreases k,
{
    if k > 0 {
        lemma_phase_b_frame(s, (k - 1) as nat);
        let s1 = phase_b(s, (k - 1) as nat);
        let s2 = phase_b(s, k);
        assert forall|i: int| 0 <= i < s.len() implies (#[trigger] s2[i]).spec_position()
            == s[i].spec_position() && s2[i].spec_links() == s[i].spec_links() by {
            assert(s1[i].spec_position() == s[i].spec_position());
        }
        assert forall|i: int| 0 <= i < s2.len() implies port_settled(#[trigger] s2[i].spec_port()) by {
            assert(port_settled(s1[i].spec_port()));
        }
    }
}

/// A hand-over keeps the layout and leaves settled ports settled.
pub proof fn lemma_hand_over_frame(s: Seq<Node>, k: int)
    requires
        0 <= k < s.len(),
        positions_unique(s),
        links_exact(s),
        ports_settled(s),
    ensures
        same_layout(s, hand_over(s, k).0),
        ports_settled(hand_over(s, k).0),
{
    let (n, partner) = s[k].spec_handed();
    let s1 = s.update(k, n);
    assert(same_layout(s, s1));
    match partner {
        None => {
            assert(n == s[k]);
            assert(s1 =~= s);
        },
        Some(t) => {
            assert(link_ok(s, k, t));
            let (s2, out) = match s[k].spec_links().get(t) {
                Some(j) => ticked(s1, j as int),
                None => (s1, Seq::<Output>::empty()),
            };
            lemma_layout_keeps_links(s, s1);
            match s[k].spec_links().get(t) {
                Some(j) => {
                    lemma_ticked_frame(s1, j as int);
                },
                None => {
                    assert(ports_evolved(s1, s1)) by {
                        assert forall|i: int| 0 <= i < s1.len() implies port_evolved(
                            s1[i].spec_port(),
                            #[trigger] s1[i].spec_port(),
                        ) by {}
                    }
                },
            }
            lemma_layout_trans(s, s1, s2);
            let s3 = s2.update(k, s2[k].spec_released());
            assert forall|i: int| 0 <= i < s.len() implies (#[trigger] s3[i]).spec_position()
                == s[i].spec_position() && s3[i].spec_links() == s[i].spec_links() by {
                assert(s2[i].spec_position() == s[i].spec_position());
            }
            assert forall|i: int| 0 <= i < s3.len() implies port_settled(
                #[trigger] s3[i].spec_port(),
            ) by {
                if i != k {
                    assert(port_settled(s[i].spec_port()));
                    assert(s1[i] == s[i]);
                    assert(port_evolved(s1[i].spec_port(), s2[i].spec_port()));
                }
            }
        },
    }
}

/// Phase C keeps the layout and leaves every port settled.
pub proof fn lemma_phase_c_frame(s: Seq<Node>, k: nat)
    requires
        k <= s.len(),
        positions_unique(s),
        links_exact(s),
        ports_settled(s),
    ensures
        same_layout(s, phase_c(s, k).0),
        ports_settled(phase_c(s, k).0),
    decreases k,
{
    if k > 0 {
        lemma_phase_c_frame(s, (k - 1) as nat);
        let s1 = phase_c(s, (k - 1) as nat).0;
        lemma_layout_keeps_links(s, s1);
        lemma_hand_over_frame(s1, k - 1);
        lemma_layout_trans(s, s1, hand_over(s1, k - 1).0);
    }
}

/// Linked neighbours link each other: when node `i` links node `j` in direction `d`,
/// node `j` links node `i` in the opposite direction.
pub proof fn lemma_links_symmetric(t: TIS, i: int, d: Direction)
    requires
        t.wf(),
        0 <= i < t@.len(),
        t@[i].spec_links().get(d) is Some,
    ensures
        ({
            let j = t@[i].spec_links().get(d).unwrap() as int;
            &&& 0 <= j < t@.len()
            &&& t@[j].spec_links().get(opposite(d)) == Some(i as usize)
        }),
{
    let s = t@;
    let j = s[i].spec_links().get(d).unwrap() as int;
    assert(link_ok(s, i, d));
    assert(link_ok(s, j, opposite(d)));
    lemma_step_back(s[i].spec_position(), d, s[j].spec_position());
    match s[j].spec_links().get(opposite(d)) {
        Some(k) => {
            assert(s[k as int].spec_position() == s[i].spec_position());
            if k as int != i {
                assert(s[k as int].spec_position() != s[i].spec_position());
            }
        },
        None => {
            assert(!s[j].spec_position().is_neighbour(opposite(d), s[i].spec_position()));
        },
    }
}

/// Between ticks a port marked given holds its value (none is marked given at all), and
/// an idle port has no receiver recorded.
pub proof fn lemma_ports_between_ticks(t: TIS, i: int)
    requires
        t.wf(),
        0 <= i < t@.len(),
    ensures
        t@[i].spec_port().give == DirectionGiving::Given ==> t@[i].spec_port().give_value is Some,
        t@[i].spec_port().give == DirectionGiving::Idle ==> t@[i].spec_port().giving_to is None,
        t@[i].spec_port().give != DirectionGiving::Given,
{
    assert(port_settled(t@[i].spec_port()));
}

proof fn lemma_single_link(s: Seq<Node>, i: int, d: Direction, j: usize, nb: Neighbors, p: Port)
    requires
        0 <= i < s.len(),
        j < s.len(),
        s[i].spec_links().get(d) == Some(j),
        forall|e: Direction| e != d ==> #[trigger] s[i].spec_links().get(e) is None,
        nb.get(d) == Some(p),
    ensures
        gathered(s, i).get(d) == Some(s[j as int].spec_port()),
        forall|e: Direction| e != d ==> #[trigger] gathered(s, i).get(e) is None,
        forall|t: Seq<Node>|
            t.len() == s.len() ==> #[trigger] scattered(t, s[i].spec_links(), nb) == t.update(
                j as int,
                t[j as int].with_port(p),
            ),
{
    assert(s[i].spec_links().get(Direction::Up) is None || d == Direction::Up);
    assert(s[i].spec_links().get(Direction::Left) is None || d == Direction::Left);
    assert(s[i].spec_links().get(Direction::Right) is None || d == Direction::Right);
    assert(s[i].spec_links().get(Direction::Down) is None || d == Direction::Down);
}

/// On a grid of two linked compute nodes, where `b` offers on `Any` and `a` reads `any`
/// into its accumulator, one tick completes the transfer: `a` holds the value and moves
/// on, `b` records the direction of `a` as `last` and its port is free again.
pub proof fn lemma_pair_any_transfer(t: TIS, d: Direction, v: Number)
    requires
        t.wf(),
        t@.len() == 2,
        t@[0] matches Node::Instruction(a) && a.can_step() && a.ptr < a.instructions.len()
            && a.instructions@[a.ptr as int] == crate::instruction::Instruction::Move(
            crate::register::RegisterOrNumber::Register(crate::register::Register::Any),
            crate::register::Register::Accumulator,
        ),
        t@[1] matches Node::Instruction(b) && b.port == (Port {
            give: DirectionGiving::Any,
            giving_to: None,
            give_value: Some(v),
        }),
        t@[0].spec_links().get(d) == Some(1usize),
    ensures
        ({
            let (sa, oa) = phase_a(t@, 2);
            let (sc, oc) = phase_c(phase_b(sa, 2), 2);
            &&& oa + oc == Seq::<Output>::empty()
            &&& sc[0] matches Node::Instruction(a2) && t@[0] matches Node::Instruction(a) && a2.accumulator == v && a2.ptr == a.ptr + 1
            &&& sc[1] matches Node::Instruction(b2) && b2.last == Some(opposite(d)) && b2.port == crate::node::idle_port()
        }),
{
    let s = t@;
    crate::direction::lemma_rank_bijective(d);
    lemma_links_symmetric(t, 0, d);
    assert(link_ok(s, 0, d));
    crate::position::lemma_step_back(s[0].spec_position(), d, s[1].spec_position());
    assert forall|e: Direction| e != d implies #[trigger] s[0].spec_links().get(e) is None by {
        assert(link_ok(s, 0, e));
        if let Some(j) = s[0].spec_links().get(e) {
            if j != 1 {
                assert(j == 0);
            }
        }
    }
    assert forall|e: Direction| e != opposite(d) implies #[trigger] s[1].spec_links().get(e) is None by {
        assert(link_ok(s, 1, e));
        if let Some(j) = s[1].spec_links().get(e) {
            if j != 0 {
                assert(j == 1);
            }
        }
    }
    assert(port_settled(s[0].spec_port()));
    let a = s[0]->Instruction_0;
    let b = s[1]->Instruction_0;
    let od = opposite(d);
    let claimed = Port { giving_to: Some(od), ..b.port };
    let b1 = InstructionNode { port: claimed, ..b };
    let s1 = seq![Node::Instruction(a), Node::Instruction(b1)];
    lemma_pair_phase_a(s, d, a, b);
    lemma_pair_phase_b(s1, a, b1);
    lemma_pair_phase_c(s1, d, a, b1, v);
}

proof fn lemma_pair_phase_a(s: Seq<Node>, d: Direction, a: InstructionNode, b: InstructionNode)
    requires
        s.len() == 2,
        s[0] == Node::Instruction(a),
        s[1] == Node::Instruction(b),
        a.can_step() && a.ptr < a.instructions.len()
            && a.instructions@[a.ptr as int] == crate::instruction::Instruction::Move(
            crate::register::RegisterOrNumber::Register(crate::register::Register::Any),
            crate::register::Register::Accumulator,
        ),
        b.port.give == DirectionGiving::Any,
        b.port.giving_to is None,
        a.links.get(d) == Some(1usize),
        forall|e: Direction| e != d ==> #[trigger] a.links.get(e) is None,
        b.links.get(opposite(d)) == Some(0usize),
        forall|e: Direction| e != opposite(d) ==> #[trigger] b.links.get(e) is None,
    ensures
        phase_a(s, 2).0 == seq![
            Node::Instruction(a),
            Node::Instruction(InstructionNode { port: Port { giving_to: Some(opposite(d)), ..b.port }, ..b }),
        ],
        phase_a(s, 2).1 == Seq::<Output>::empty(),
{
    crate::direction::lemma_rank_bijective(d);
    let od = opposite(d);
    let nb0 = gathered(s, 0);
    let claimed = Port { giving_to: Some(od), ..b.port };
    lemma_single_link(s, 0, d, 1, nb0.set(d, claimed), claimed);
    assert(nb0.get(d) == Some(b.port));
    assert forall|i: nat| i < crate::direction::rank(d) implies !nb0.stops_at(
        #[trigger] crate::direction::direction_of_rank(i),
    ) by {
        assert(crate::direction::direction_of_rank(i) != d);
        assert(nb0.get(crate::direction::direction_of_rank(i)) is None);
    }
    crate::node::lemma_first_stop_at(nb0, crate::direction::rank(d));
    assert(nb0.after_any_read() == nb0.set(d, claimed));
    assert(nb0.any_value() == None::<Number>);
    assert(a.step(nb0) == (a, nb0.set(d, claimed)));
    let b1 = InstructionNode { port: claimed, ..b };
    let s1 = seq![Node::Instruction(a), Node::Instruction(b1)];
    assert(ticked(s, 0).0 =~= s1);
    assert(ticked(s, 0).1 == Seq::<Output>::empty());
    let nb1 = gathered(s1, 1);
    lemma_single_link(s1, 1, od, 0, nb1, a.port);
    assert(nb1.get(od) == Some(a.port));
    assert(b1.step(nb1) == (b1, nb1));
    assert(ticked(s1, 1).0 =~= s1);
    assert(phase_a(s, 0) == (s, Seq::<Output>::empty()));
    assert(phase_a(s, 1).0 == s1);
    assert(phase_a(s, 2).0 == s1);
    assert(phase_a(s, 2).1 =~= Seq::<Output>::empty());
}

proof fn lemma_pair_phase_b(s1: Seq<Node>, a: InstructionNode, b1: InstructionNode)
    requires
        s1 == seq![Node::Instruction(a), Node::Instruction(b1)],
        a.ptr < a.instructions.len(),
        a.instructions@[a.ptr as int] == crate::instruction::Instruction::Move(
            crate::register::RegisterOrNumber::Register(crate::register::Register::Any),
            crate::register::Register::Accumulator,
        ),
        b1.port.give == DirectionGiving::Any,
    ensures
        phase_b(s1, 2) == s1,
{
    assert(a.committed() == a);
    assert(b1.committed() == b1);
    assert(phase_b(s1, 0) == s1);
    assert(phase_b(s1, 1) =~= s1);
    assert(phase_b(s1, 2) =~= s1);
}

#[verifier::rlimit(60)]
proof fn lemma_pair_phase_c(s1: Seq<Node>, d: Direction, a: InstructionNode, b1: InstructionNode, v: Number)
    requires
        s1 == seq![Node::Instruction(a), Node::Instruction(b1)],
        a.can_step() && a.ptr < a.instructions.len()
            && a.instructions@[a.ptr as int] == crate::instruction::Instruction::Move(
            crate::register::RegisterOrNumber::Register(crate::register::Register::Any),
            crate::register::Register::Accumulator,
        ),
        a.port.giving_to is None,
        b1.port == (Port { give: DirectionGiving::Any, giving_to: Some(opposite(d)), give_value: Some(v) }),
        a.links.get(d) == Some(1usize),
        forall|e: Direction| e != d ==> #[trigger] a.links.get(e) is None,
        b1.links.get(opposite(d)) == Some(0usize),
    ensures
        ({
            let (sc, oc) = phase_c(s1, 2);
            &&& oc == Seq::<Output>::empty()
            &&& sc[0] matches Node::Instruction(a2) && a2.accumulator == v && a2.ptr == a.ptr + 1
            &&& sc[1] matches Node::Instruction(b2) && b2.last == Some(opposite(d)) && b2.port == crate::node::idle_port()
        }),
{
    crate::direction::lemma_rank_bijective(d);
    let od = opposite(d);
    assert(hand_over(s1, 0).0 =~= s1);
    assert(hand_over(s1, 0).1 == Seq::<Output>::empty());
    let b2 = b1.handed();
    assert(b2.last == Some(od));
    let s2 = seq![Node::Instruction(a), Node::Instruction(b2)];
    assert(s1.update(1, Node::Instruction(b2)) =~= s2);
    let nb2 = gathered(s2, 0);
    let taken = Port { give_value: None, ..b2.port };
    lemma_single_link(s2, 0, d, 1, nb2.set(d, taken), taken);
    assert(nb2.get(d) == Some(b2.port));
    assert forall|i: nat| i < crate::direction::rank(d) implies !nb2.stops_at(
        #[trigger] crate::direction::direction_of_rank(i),
    ) by {
        assert(crate::direction::direction_of_rank(i) != d);
        assert(nb2.get(crate::direction::direction_of_rank(i)) is None);
    }
    crate::node::lemma_first_stop_at(nb2, crate::direction::rank(d));
    assert(nb2.any_value() == Some(v));
    assert(nb2.after_any_read() == nb2.set(d, taken));
    let a2 = a.stored(crate::register::Register::Accumulator, v).with_ptr(a.ptr + 1);
    assert(a.step(nb2) == (a2, nb2.set(d, taken)));
    let b3 = InstructionNode { port: taken, ..b2 };
    let s3 = seq![Node::Instruction(a2), Node::Instruction(b3)];
    assert(ticked(s2, 0).0 =~= s3);
    assert(ticked(s2, 0).1 == Seq::<Output>::empty());
    let s4 = seq![Node::Instruction(a2), Node::Instruction(b3.released())];
    assert(hand_over(s1, 1).0 =~= s4);
    assert(hand_over(s1, 1).1 == Seq::<Output>::empty());
    assert(phase_c(s1, 0) == (s1, Seq::<Output>::empty()));
    assert(phase_c(s1, 1).0 == s1);
    assert(phase_c(s1, 2).0 == s4);
    assert(phase_c(s1, 2).1 =~= Seq::<Output>::empty());
    assert(a2.accumulator == v);
    assert(b3.released().port == crate::node::idle_port());
}

} // verus!
