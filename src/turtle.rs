use vstd::prelude::*;

verus! {

/// An axis of the turtle's own frame.
#[derive(Clone, Copy, Debug, PartialEq, Eq, Structural)]
pub enum Axis {
    X,
    Y,
    Z,
}

/// A change of heading: by plus or minus the turn angle, or by half a turn,
/// about an axis of the turtle's frame.
#[derive(Clone, Copy, Debug, PartialEq, Eq, Structural)]
pub enum Turn {
    Positive(Axis),
    Negative(Axis),
    Half(Axis),
}

/// What a symbol makes the turtle do.
#[derive(Clone, Copy, Debug, PartialEq, Eq, Structural)]
pub enum Action {
    /// Draw one segment ahead and move to its end.
    DrawAdvance,
    /// Draw one segment ahead and stay where the turtle is.
    DrawStay,
    /// Save the turtle's state.
    Push,
    /// Return to the most recently saved state; nothing when none is saved.
    Pop,
    /// Change the heading.
    Rotate(Turn),
}

/// One move of the turtle: a step of one segment length ahead, or a turn.
#[derive(Clone, Copy, Debug, PartialEq, Eq, Structural)]
pub enum Step {
    Forward,
    Rotate(Turn),
}

/// The action that `entries` gives to `c`: of two entries for one symbol the
/// later one counts.
pub open spec fn lookup_spec(entries: Seq<(char, Action)>, c: char) -> Option<Action>
    decreases entries.len(),
{
    if entries.len() == 0 {
        None
    } else if entries.last().0 == c {
        Some(entries.last().1)
    } else {
        lookup_spec(entries.drop_last(), c)
    }
}

/// Maps symbols to turtle actions; symbols it does not name do nothing.
pub struct CommandTable {
    pub entries: Vec<(char, Action)>,
}

impl CommandTable {
    pub fn new(entries: Vec<(char, Action)>) -> (r: Self)
        ensures
            r.entries@ == entries@,
    {
        CommandTable { entries }
    }

    /// The branching-plant alphabet: `1` draws and advances, `0` draws a
    /// stub and stays, `[` and `]` save and restore, `-` and `+` turn about
    /// the Z axis, `<` and `>` about the X axis.
    pub fn plant() -> (r: Self)
        ensures
            r.entries@ == seq![
                ('1', Action::DrawAdvance),
                ('0', Action::DrawStay),
                ('[', Action::Push),
                (']', Action::Pop),
                ('-', Action::Rotate(Turn::Negative(Axis::Z))),
                ('+', Action::Rotate(Turn::Positive(Axis::Z))),
                ('<', Action::Rotate(Turn::Negative(Axis::X))),
                ('>', Action::Rotate(Turn::Positive(Axis::X))),
            ],
    {
        let r = CommandTable {
            entries: vec![
                ('1', Action::DrawAdvance),
                ('0', Action::DrawStay),
                ('[', Action::Push),
                (']', Action::Pop),
                ('-', Action::Rotate(Turn::Negative(Axis::Z))),
                ('+', Action::Rotate(Turn::Positive(Axis::Z))),
                ('<', Action::Rotate(Turn::Negative(Axis::X))),
                ('>', Action::Rotate(Turn::Positive(Axis::X))),
            ],
        };
        assert(r.entries@ =~= seq![
            ('1', Action::DrawAdvance),
            ('0', Action::DrawStay),
            ('[', Action::Push),
            (']', Action::Pop),
            ('-', Action::Rotate(Turn::Negative(Axis::Z))),
            ('+', Action::Rotate(Turn::Positive(Axis::Z))),
            ('<', Action::Rotate(Turn::Negative(Axis::X))),
            ('>', Action::Rotate(Turn::Positive(Axis::X))),
        ]);
        r
    }

    /// The three-dimensional curve alphabet: `F` draws and advances, `+` and
    /// `-` turn (yaw, about Z), `&` and `^` pitch (about X), `\` and `/`
    /// roll (about the heading, Y), `|` turns around.
    pub fn space_curve() -> (r: Self)
        ensures
            r.entries@ == seq![
                ('F', Action::DrawAdvance),
                ('+', Action::Rotate(Turn::Positive(Axis::Z))),
                ('-', Action::Rotate(Turn::Negative(Axis::Z))),
                ('&', Action::Rotate(Turn::Positive(Axis::X))),
                ('^', Action::Rotate(Turn::Negative(Axis::X))),
                ('\\', Action::Rotate(Turn::Positive(Axis::Y))),
                ('/', Action::Rotate(Turn::Negative(Axis::Y))),
                ('|', Action::Rotate(Turn::Half(Axis::Z))),
            ],
    {
        let r = CommandTable {
            entries: vec![
                ('F', Action::DrawAdvance),
                ('+', Action::Rotate(Turn::Positive(Axis::Z))),
                ('-', Action::Rotate(Turn::Negative(Axis::Z))),
                ('&', Action::Rotate(Turn::Positive(Axis::X))),
                ('^', Action::Rotate(Turn::Negative(Axis::X))),
                ('\\', Action::Rotate(Turn::Positive(Axis::Y))),
                ('/', Action::Rotate(Turn::Negative(Axis::Y))),
                ('|', Action::Rotate(Turn::Half(Axis::Z))),
            ],
        };
        assert(r.entries@ =~= seq![
            ('F', Action::DrawAdvance),
            ('+', Action::Rotate(Turn::Positive(Axis::Z))),
            ('-', Action::Rotate(Turn::Negative(Axis::Z))),
            ('&', Action::Rotate(Turn::Positive(Axis::X))),
            ('^', Action::Rotate(Turn::Negative(Axis::X))),
            ('\\', Action::Rotate(Turn::Positive(Axis::Y))),
            ('/', Action::Rotate(Turn::Negative(Axis::Y))),
            ('|', Action::Rotate(Turn::Half(Axis::Z))),
        ]);
        r
    }

    /// The action for symbol `c`, if any.
    pub fn lookup(&self, c: char) -> (r: Option<Action>)
        ensures
            r == lookup_spec(self.entries@, c),
    {
        let mut i: usize = self.entries.len();
        assert(self.entries@.take(i as int) =~= self.entries@);
        while i > 0
            invariant
                i <= self.entries@.len(),
                lookup_spec(self.entries@, c) == lookup_spec(self.entries@.take(i as int), c),
            decreases i,
        {
            let (k, a) = self.entries[i - 1];
            assert(self.entries@.take(i as int).drop_last() =~= self.entries@.take(i - 1));
            if k == c {
                return Some(a);
            }
            i -= 1;
        }
        None
    }
}

/// The turtle in exact form. A state is the word of moves that led to it
/// from the start: the position and heading it stands for follow from that
/// word and the numeric parameters alone.
#[verifier::ext_equal]
pub struct TurtleModel {
    pub path: Seq<Step>,
    pub stack: Seq<Seq<Step>>,
    pub segments: Seq<(Seq<Step>, Seq<Step>)>,
}

pub open spec fn initial_model() -> TurtleModel {
    TurtleModel { path: Seq::empty(), stack: Seq::empty(), segments: Seq::empty() }
}

/// The turtle after one action.
pub open spec fn act_spec(m: TurtleModel, a: Action) -> TurtleModel {
    match a {
        Action::DrawAdvance => TurtleModel {
            path: m.path.push(Step::Forward),
            stack: m.stack,
            segments: m.segments.push((m.path, m.path.push(Step::Forward))),
        },
        Action::DrawStay => TurtleModel {
            path: m.path,
            stack: m.stack,
            segments: m.segments.push((m.path, m.path.push(Step::Forward))),
        },
        Action::Push => TurtleModel { path: m.path, stack: m.stack.push(m.path), segments: m.segments },
        Action::Pop => if m.stack.len() == 0 {
            m
        } else {
            TurtleModel { path: m.stack.last(), stack: m.stack.drop_last(), segments: m.segments }
        },
        Action::Rotate(t) => TurtleModel {
            path: m.path.push(Step::Rotate(t)),
            stack: m.stack,
            segments: m.segments,
        },
    }
}

/// The turtle after the symbol `c`.
pub open spec fn symbol_spec(m: TurtleModel, entries: Seq<(char, Action)>, c: char) -> TurtleModel {
    match lookup_spec(entries, c) {
        Some(a) => act_spec(m, a),
        None => m,
    }
}

/// The turtle after reading `symbols` from the start.
pub open spec fn interpret_spec(symbols: Seq<char>, entries: Seq<(char, Action)>) -> TurtleModel
    decreases symbols.len(),
{
    if symbols.len() == 0 {
        initial_model()
    } else {
        symbol_spec(interpret_spec(symbols.drop_last(), entries), entries, symbols.last())
    }
}

/// A state of the turtle, reached from state `parent` by `step`.
#[derive(Clone, Copy, Debug, PartialEq, Eq, Structural)]
pub struct Node {
    pub parent: usize,
    pub step: Step,
}

/// A drawn segment, from the position of state `start` to that of state
/// `end`.
#[derive(Clone, Copy, Debug, PartialEq, Eq, Structural)]
pub struct Segment {
    pub start: usize,
    pub end: usize,
}

/// The word of moves that leads to state `id`; state 0 is the start.
pub open spec fn path_of(nodes: Seq<Node>, id: int) -> Seq<Step>
    decreases id,
{
    if id <= 0 || id >= nodes.len() || nodes[id].parent >= id {
        Seq::empty()
    } else {
        path_of(nodes, nodes[id].parent as int).push(nodes[id].step)
    }
}

/// Every state but the start comes from an earlier one.
pub open spec fn nodes_wf(nodes: Seq<Node>) -> bool {
    &&& nodes.len() >= 1
    &&& forall|k: int| 1 <= k < nodes.len() ==> (#[trigger] nodes[k]).parent < k
}

/// Every segment ends one step ahead of where it starts.
pub open spec fn segments_wf(nodes: Seq<Node>, segments: Seq<Segment>) -> bool {
    forall|k: int|
        0 <= k < segments.len() ==> {
            &&& (#[trigger] segments[k]).start < segments[k].end < nodes.len()
            &&& nodes[segments[k].end as int].parent == segments[k].start
            &&& nodes[segments[k].end as int].step == Step::Forward
        }
}

pub open spec fn paths_of(nodes: Seq<Node>, ids: Seq<usize>) -> Seq<Seq<Step>> {
    ids.map_values(|id: usize| path_of(nodes, id as int))
}

pub open spec fn segment_paths_of(nodes: Seq<Node>, segments: Seq<Segment>) -> Seq<(Seq<Step>, Seq<Step>)> {
    segments.map_values(|s: Segment| (path_of(nodes, s.start as int), path_of(nodes, s.end as int)))
}

/// Adding a state leaves the words of the earlier ones as they were.
proof fn lemma_path_of_push(nodes: Seq<Node>, n: Node, id: int)
    requires
        nodes_wf(nodes),
        0 <= id < nodes.len(),
    ensures
        path_of(nodes.push(n), id) == path_of(nodes, id),
    decreases id,
{
    if id > 0 {
        assert(nodes.push(n)[id] == nodes[id]);
        lemma_path_of_push(nodes, n, nodes[id].parent as int);
    }
}

/// Adding a state leaves the words of all the states named in `ids` and in
/// `segments` as they were.
proof fn lemma_paths_of_push(nodes: Seq<Node>, n: Node, ids: Seq<usize>, segments: Seq<Segment>)
    requires
        nodes_wf(nodes),
        forall|k: int| 0 <= k < ids.len() ==> #[trigger] ids[k] < nodes.len(),
        segments_wf(nodes, segments),
    ensures
        paths_of(nodes.push(n), ids) == paths_of(nodes, ids),
        segment_paths_of(nodes.push(n), segments) == segment_paths_of(nodes, segments),
{
    assert forall|k: int| 0 <= k < ids.len() implies #[trigger] paths_of(nodes.push(n), ids)[k]
        == paths_of(nodes, ids)[k] by {
        lemma_path_of_push(nodes, n, ids[k] as int);
    }
    assert(paths_of(nodes.push(n), ids) =~= paths_of(nodes, ids));
    assert forall|k: int| 0 <= k < segments.len() implies #[trigger] segment_paths_of(
        nodes.push(n),
        segments,
    )[k] == segment_paths_of(nodes, segments)[k] by {
        lemma_path_of_push(nodes, n, segments[k].start as int);
        lemma_path_of_push(nodes, n, segments[k].end as int);
    }
    assert(segment_paths_of(nodes.push(n), segments) =~= segment_paths_of(nodes, segments));
}

/// A turtle in the middle of a run. `nodes[0]` is the start state; every
/// other state is reached from an earlier one by one move, so that the word
/// of each state is kept once however often it is saved or drawn from.
pub struct Turtle {
    pub nodes: Vec<Node>,
    pub segments: Vec<Segment>,
    pub current: usize,
    pub stack: Vec<usize>,
}

impl Turtle {
    pub open spec fn wf(&self) -> bool {
        &&& nodes_wf(self.nodes@)
        &&& segments_wf(self.nodes@, self.segments@)
        &&& self.current < self.nodes@.len()
        &&& forall|k: int| 0 <= k < self.stack@.len() ==> #[trigger] self.stack@[k] < self.nodes@.len()
    }

    /// The exact turtle that this one stands for.
    pub open spec fn model(&self) -> TurtleModel {
        TurtleModel {
            path: path_of(self.nodes@, self.current as int),
            stack: paths_of(self.nodes@, self.stack@),
            segments: segment_paths_of(self.nodes@, self.segments@),
        }
    }

    /// A turtle at its start state, with nothing saved and nothing drawn.
    pub fn new() -> (r: Self)
        ensures
            r.wf(),
            r.model() == initial_model(),
    {
        let mut nodes: Vec<Node> = Vec::new();
        nodes.push(Node { parent: 0, step: Step::Forward });
        let r = Turtle { nodes, segments: Vec::new(), current: 0, stack: Vec::new() };
        assert(r.model() =~= initial_model());
        r
    }

    /// Adds the state reached from the current one by `step`.
    fn add_node(&mut self, step: Step) -> (id: usize)
        requires
            old(self).wf(),
        ensures
            final(self).wf(),
            id == old(self).nodes@.len(),
            id < final(self).nodes@.len(),
            final(self).nodes@ == old(self).nodes@.push(Node { parent: old(self).current, step }),
            final(self).current == old(self).current,
            final(self).stack@ == old(self).stack@,
            final(self).segments@ == old(self).segments@,
            final(self).model() == old(self).model(),
            path_of(final(self).nodes@, id as int) == old(self).model().path.push(step),
    {
        let id = self.nodes.len();
        let n = Node { parent: self.current, step };
        proof {
            lemma_paths_of_push(self.nodes@, n, self.stack@, self.segments@);
            lemma_path_of_push(self.nodes@, n, self.current as int);
        }
        self.nodes.push(n);
        assert(self.nodes@[id as int] == n);
        id
    }

    /// Carries out one action.
    pub fn apply(&mut self, action: Action)
        requires
            old(self).wf(),
        ensures
            final(self).wf(),
            final(self).model() == act_spec(old(self).model(), action),
    {
        match action {
            Action::DrawAdvance => {
                let start = self.current;
                let id = self.add_node(Step::Forward);
                self.segments.push(Segment { start, end: id });
                self.current = id;
                assert(self.model() =~= act_spec(old(self).model(), action));
            },
            Action::DrawStay => {
                let start = self.current;
                let id = self.add_node(Step::Forward);
                self.segments.push(Segment { start, end: id });
                assert(self.model() =~= act_spec(old(self).model(), action));
            },
            Action::Push => {
                self.stack.push(self.current);
                assert(self.model() =~= act_spec(old(self).model(), action));
            },
            Action::Pop => {
                match self.stack.pop() {
                    Some(id) => {
                        self.current = id;
                        assert(self.model() =~= act_spec(old(self).model(), action));
                    },
                    None => {},
                }
            },
            Action::Rotate(t) => {
                let id = self.add_node(Step::Rotate(t));
                self.current = id;
                assert(self.model() =~= act_spec(old(self).model(), action));
            },
        }
    }
}

/// Runs the turtle over `symbols`, each symbol doing what `commands` gives
/// it.
pub fn interpret(symbols: &Vec<char>, commands: &CommandTable) -> (t: Turtle)
    ensures
        t.wf(),
        t.model() == interpret_spec(symbols@, commands.entries@),
{
    let mut t = Turtle::new();
    let mut i: usize = 0;
    while i < symbols.len()
        invariant
            i <= symbols@.len(),
            t.wf(),
            t.model() == interpret_spec(symbols@.take(i as int), commands.entries@),
        decreases symbols@.len() - i,
    {
        let c = symbols[i];
        assert(symbols@.take(i + 1).drop_last() =~= symbols@.take(i as int));
        assert(symbols@.take(i + 1).last() == c);
        match commands.lookup(c) {
            Some(a) => t.apply(a),
            None => {},
        }
        i += 1;
    }
    assert(symbols@.take(i as int) =~= symbols@);
    t
}

/// A pop with nothing saved is harmless: after any symbols that leave the
/// stack empty, a symbol that pops leaves the turtle exactly as it was.
pub proof fn lemma_unmatched_pop_keeps_state(
    symbols: Seq<char>,
    entries: Seq<(char, Action)>,
    c: char,
)
    requires
        lookup_spec(entries, c) == Some(Action::Pop),
        interpret_spec(symbols, entries).stack.len() == 0,
    ensures
        interpret_spec(symbols.push(c), entries) == interpret_spec(symbols, entries),
{
    assert(symbols.push(c).drop_last() =~= symbols);
}

/// Every drawn segment ends one forward step from where it starts, so its
/// length is the segment length whatever the heading.
pub proof fn lemma_segments_one_step(symbols: Seq<char>, entries: Seq<(char, Action)>)
    ensures
        forall|k: int|
            0 <= k < interpret_spec(symbols, entries).segments.len() ==> (#[trigger] interpret_spec(
                symbols,
                entries,
            ).segments[k]).1 == interpret_spec(symbols, entries).segments[k].0.push(Step::Forward),
    decreases symbols.len(),
{
    if symbols.len() > 0 {
        lemma_segments_one_step(symbols.drop_last(), entries);
        let m = interpret_spec(symbols.drop_last(), entries);
        let r = interpret_spec(symbols, entries);
        assert forall|k: int| 0 <= k < r.segments.len() implies (#[trigger] r.segments[k]).1
            == r.segments[k].0.push(Step::Forward) by {
            if k < m.segments.len() {
                assert(r.segments[k] == m.segments[k]);
            }
        }
    }
}

} // verus!
