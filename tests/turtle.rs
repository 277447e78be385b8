use lsys_engine::lsystems::LSysRules;
use lsys_engine::turtle::{interpret, Action, Axis, CommandTable, Node, Segment, Step, Turn, Turtle};

type M3 = [[f64; 3]; 3];
type V3 = [f64; 3];

fn rot(axis: Axis, angle: f64) -> M3 {
    let (s, c) = angle.sin_cos();
    match axis {
        Axis::X => [[1.0, 0.0, 0.0], [0.0, c, -s], [0.0, s, c]],
        Axis::Y => [[c, 0.0, s], [0.0, 1.0, 0.0], [-s, 0.0, c]],
        Axis::Z => [[c, -s, 0.0], [s, c, 0.0], [0.0, 0.0, 1.0]],
    }
}

fn mul(a: &M3, b: &M3) -> M3 {
    let mut r = [[0.0; 3]; 3];
    for i in 0..3 {
        for j in 0..3 {
            for k in 0..3 {
                r[i][j] += a[i][k] * b[k][j];
            }
        }
    }
    r
}

fn apply(a: &M3, v: &V3) -> V3 {
    let mut r = [0.0; 3];
    for i in 0..3 {
        for k in 0..3 {
            r[i] += a[i][k] * v[k];
        }
    }
    r
}

/// Coordinates of each state: start at the origin heading along +Y.
fn positions(t: &Turtle, turn: f64, len: f64) -> Vec<V3> {
    let mut pos: Vec<V3> = Vec::new();
    let mut heading: Vec<M3> = Vec::new();
    for (i, n) in t.nodes.iter().enumerate() {
        if i == 0 {
            pos.push([0.0; 3]);
            heading.push([[1.0, 0.0, 0.0], [0.0, 1.0, 0.0], [0.0, 0.0, 1.0]]);
            continue;
        }
        let p = pos[n.parent];
        let h = heading[n.parent];
        match n.step {
            Step::Forward => {
                let f = apply(&h, &[0.0, len, 0.0]);
                pos.push([p[0] + f[0], p[1] + f[1], p[2] + f[2]]);
                heading.push(h);
            }
            Step::Rotate(tn) => {
                let r = match tn {
                    Turn::Positive(a) => rot(a, turn),
                    Turn::Negative(a) => rot(a, -turn),
                    Turn::Half(a) => rot(a, std::f64::consts::PI),
                };
                pos.push(p);
                heading.push(mul(&h, &r));
            }
        }
    }
    pos
}

fn lines(t: &Turtle, turn: f64, len: f64) -> Vec<(V3, V3)> {
    let pos = positions(t, turn, len);
    t.segments.iter().map(|s| (pos[s.start], pos[s.end])).collect()
}

fn close(a: V3, b: V3) -> bool {
    (0..3).all(|i| (a[i] - b[i]).abs() < 1e-9)
}

fn plant_grammar() -> LSysRules {
    LSysRules::new(vec!['0'], vec![('0', "1[-0]+0".to_string())])
}

#[test]
fn plant_one_iteration_segments() {
    let symbols = plant_grammar().expand(1);
    assert_eq!(symbols, "1[-0]+0".chars().collect::<Vec<char>>());
    let t = interpret(&symbols, &CommandTable::plant());
    let got = lines(&t, std::f64::consts::FRAC_PI_2, 1.0);
    let want = [
        ([0.0, 0.0, 0.0], [0.0, 1.0, 0.0]),
        ([0.0, 1.0, 0.0], [1.0, 1.0, 0.0]),
        ([0.0, 1.0, 0.0], [-1.0, 1.0, 0.0]),
    ];
    assert_eq!(got.len(), 3);
    for (g, w) in got.iter().zip(want.iter()) {
        assert!(close(g.0, w.0) && close(g.1, w.1), "{:?} != {:?}", g, w);
    }
}

#[test]
fn plant_zero_iterations_single_segment() {
    let symbols = plant_grammar().expand(0);
    let t = interpret(&symbols, &CommandTable::plant());
    let got = lines(&t, std::f64::consts::FRAC_PI_2, 1.0);
    assert_eq!(got.len(), 1);
    assert!(close(got[0].0, [0.0, 0.0, 0.0]));
    assert!(close(got[0].1, [0.0, 1.0, 0.0]));
}

#[test]
fn plant_symbolic_segments() {
    let t = interpret(&"1[-0]+0".chars().collect(), &CommandTable::plant());
    // start, 1, -, 0, +, 0
    assert_eq!(
        t.nodes[1..],
        [
            Node { parent: 0, step: Step::Forward },
            Node { parent: 1, step: Step::Rotate(Turn::Negative(Axis::Z)) },
            Node { parent: 2, step: Step::Forward },
            Node { parent: 1, step: Step::Rotate(Turn::Positive(Axis::Z)) },
            Node { parent: 4, step: Step::Forward },
        ]
    );
    assert_eq!(
        t.segments,
        vec![
            Segment { start: 0, end: 1 },
            Segment { start: 2, end: 3 },
            Segment { start: 4, end: 5 },
        ]
    );
    assert_eq!(t.current, 4);
    assert!(t.stack.is_empty());
}

#[test]
fn extra_pops_are_ignored() {
    let t = interpret(&"]]1]".chars().collect(), &CommandTable::plant());
    let got = lines(&t, 0.3, 2.0);
    assert_eq!(got.len(), 1);
    assert!(close(got[0].0, [0.0, 0.0, 0.0]));
    assert!(close(got[0].1, [0.0, 2.0, 0.0]));
    assert_eq!(t.current, 1);
}

#[test]
fn extra_pop_after_balanced_pair_keeps_state() {
    let t = interpret(&"[+1]1]+]1".chars().collect(), &CommandTable::plant());
    let got = lines(&t, std::f64::consts::FRAC_PI_2, 1.0);
    assert_eq!(got.len(), 3);
    assert!(close(got[0].1, [-1.0, 0.0, 0.0]));
    assert!(close(got[1].1, [0.0, 1.0, 0.0]));
    // the extra pops changed nothing; the turn before the last one did
    assert!(close(got[2].0, [0.0, 1.0, 0.0]));
    assert!(close(got[2].1, [-1.0, 1.0, 0.0]));
}

#[test]
fn apply_pop_on_empty_stack() {
    let mut t = Turtle::new();
    t.apply(Action::DrawAdvance);
    let before = (t.nodes.clone(), t.segments.clone(), t.current);
    t.apply(Action::Pop);
    assert_eq!((t.nodes.clone(), t.segments.clone(), t.current), before);
}

#[test]
fn push_pop_restores_state() {
    let mut t = Turtle::new();
    t.apply(Action::DrawAdvance);
    t.apply(Action::Push);
    t.apply(Action::Rotate(Turn::Positive(Axis::X)));
    t.apply(Action::DrawAdvance);
    assert_eq!(t.stack, vec![1]);
    t.apply(Action::Pop);
    assert_eq!(t.current, 1);
    assert!(t.stack.is_empty());
}

#[test]
fn draw_stay_does_not_move() {
    let mut t = Turtle::new();
    t.apply(Action::DrawStay);
    t.apply(Action::DrawStay);
    assert_eq!(t.current, 0);
    assert_eq!(t.segments, vec![Segment { start: 0, end: 1 }, Segment { start: 0, end: 2 }]);
}

#[test]
fn every_segment_has_the_segment_length() {
    let g = LSysRules::new(
        vec!['0'],
        vec![('1', "11".to_string()), ('0', "1[-0]+0".to_string()), ('x', "<1>".to_string())],
    );
    let mut symbols = g.expand(4);
    symbols.extend("x[<0]>0|".chars());
    let t = interpret(&symbols, &CommandTable::plant());
    assert!(!t.segments.is_empty());
    let len = 0.37;
    for s in &t.segments {
        assert_eq!(t.nodes[s.end].parent, s.start);
        assert_eq!(t.nodes[s.end].step, Step::Forward);
    }
    for (a, b) in lines(&t, 0.4363, len) {
        let d = ((a[0] - b[0]).powi(2) + (a[1] - b[1]).powi(2) + (a[2] - b[2]).powi(2)).sqrt();
        assert!((d - len).abs() < 1e-5);
    }
}

#[test]
fn turning_back_and_forth_restores_heading() {
    let t = interpret(&"+-+-<>1".chars().collect(), &CommandTable::plant());
    let got = lines(&t, 0.7, 1.0);
    assert_eq!(got.len(), 1);
    assert!((got[0].1[0]).abs() < 1e-4 && (got[0].1[1] - 1.0).abs() < 1e-4);
}

#[test]
fn unmapped_symbols_do_nothing() {
    let t = interpret(&"abc".chars().collect(), &CommandTable::plant());
    assert_eq!(t.nodes.len(), 1);
    assert!(t.segments.is_empty());
}

#[test]
fn lookup_later_entry_wins() {
    let table = CommandTable::new(vec![('x', Action::Push), ('y', Action::Pop), ('x', Action::DrawStay)]);
    assert_eq!(table.lookup('x'), Some(Action::DrawStay));
    assert_eq!(table.lookup('y'), Some(Action::Pop));
    assert_eq!(table.lookup('z'), None);
}

#[test]
fn space_curve_turn_around() {
    let t = interpret(&"F|F".chars().collect(), &CommandTable::space_curve());
    let got = lines(&t, std::f64::consts::FRAC_PI_2, 1.0);
    assert_eq!(got.len(), 2);
    assert!(close(got[1].0, [0.0, 1.0, 0.0]));
    assert!(close(got[1].1, [0.0, 0.0, 0.0]));
}

#[test]
fn space_curve_pitch_and_roll() {
    let t = interpret(&"&F".chars().collect(), &CommandTable::space_curve());
    let got = lines(&t, std::f64::consts::FRAC_PI_2, 1.0);
    assert!(close(got[0].1, [0.0, 0.0, 1.0]));
    let t = interpret(&"\\+F".chars().collect(), &CommandTable::space_curve());
    let got = lines(&t, std::f64::consts::FRAC_PI_2, 1.0);
    assert!(close(got[0].1, [0.0, 0.0, 1.0]));
}
