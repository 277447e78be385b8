use vstd::prelude::*;

use crate::lsystems::{expand_spec, table_of, LSys, LSysDrawer};
use crate::turtle::{interpret, interpret_spec, Action, CommandTable, Turtle, TurtleModel};

verus! {

/// What a `GeometryCache` holds: the configuration, the geometry last
/// generated from it, and whether that geometry is stale.
#[verifier::ext_equal]
pub struct CacheView {
    pub name: Seq<char>,
    pub start: Seq<char>,
    pub rules: Seq<(char, String)>,
    pub iterations: usize,
    pub commands: Seq<(char, Action)>,
    pub geometry: TurtleModel,
    pub changed: bool,
}

/// The geometry that a configuration gives.
pub open spec fn generated(v: CacheView) -> TurtleModel {
    interpret_spec(expand_spec(v.start, table_of(v.rules), v.iterations as nat), v.commands)
}

/// One poll: stale geometry is generated again and the cache becomes clean;
/// a clean cache is left alone.
pub open spec fn poll_spec(v: CacheView) -> CacheView {
    if v.changed {
        CacheView { geometry: generated(v), changed: false, ..v }
    } else {
        v
    }
}

/// A grammar, the command table that draws it, and the geometry last drawn,
/// regenerated only after the configuration changed.
pub struct GeometryCache {
    lsys: LSys,
    commands: CommandTable,
    geometry: Turtle,
    drawer: LSysDrawer,
}

impl View for GeometryCache {
    type V = CacheView;

    closed spec fn view(&self) -> CacheView {
        CacheView {
            name: self.lsys.name@,
            start: self.lsys.rules.start@,
            rules: self.lsys.rules.rules@,
            iterations: self.lsys.iterations,
            commands: self.commands.entries@,
            geometry: self.geometry.model(),
            changed: self.drawer.changed,
        }
    }
}

impl GeometryCache {
    pub closed spec fn wf(&self) -> bool {
        self.geometry.wf()
    }

    /// A cache for `lsys` drawn with `commands`; nothing is drawn yet, and
    /// the first poll draws it.
    pub fn new(lsys: LSys, commands: CommandTable) -> (r: Self)
        ensures
            r.wf(),
            r@.name == lsys.name@,
            r@.start == lsys.rules.start@,
            r@.rules == lsys.rules.rules@,
            r@.iterations == lsys.iterations,
            r@.commands == commands.entries@,
            r@.geometry == crate::turtle::initial_model(),
            r@.changed,
    {
        GeometryCache { lsys, commands, geometry: Turtle::new(), drawer: LSysDrawer::new() }
    }

    /// Generates the geometry again if the configuration changed since the
    /// last time, and says whether it did. The new geometry replaces the old
    /// one in a single assignment, once it is complete.
    pub fn poll(&mut self) -> (r: bool)
        requires
            old(self).wf(),
        ensures
            final(self).wf(),
            final(self)@ == poll_spec(old(self)@),
            r == old(self)@.changed,
            !old(self)@.changed ==> *final(self) == *old(self),
    {
        if self.drawer.changed {
            let symbols = self.lsys.rules.expand(self.lsys.iterations);
            let geometry = interpret(&symbols, &self.commands);
            self.geometry = geometry;
            self.drawer.changed = false;
            assert(self@ =~= poll_spec(old(self)@));
            true
        } else {
            false
        }
    }

    /// Marks the geometry stale, for a change made outside the cache (a
    /// length, an angle, a start position).
    pub fn mark_changed(&mut self)
        requires
            old(self).wf(),
        ensures
            final(self).wf(),
            final(self)@ == (CacheView { changed: true, ..old(self)@ }),
    {
        self.drawer.changed = true;
        assert(self@ =~= (CacheView { changed: true, ..old(self)@ }));
    }

    /// Replaces the start sequence; the geometry becomes stale.
    pub fn set_start(&mut self, start: Vec<char>)
        requires
            old(self).wf(),
        ensures
            final(self).wf(),
            final(self)@ == (CacheView { start: start@, changed: true, ..old(self)@ }),
    {
        self.lsys.rules.start = start;
        self.drawer.changed = true;
        assert(self@ =~= (CacheView { start: start@, changed: true, ..old(self)@ }));
    }

    /// Replaces all rules; the geometry becomes stale.
    pub fn set_rules(&mut self, rules: Vec<(char, String)>)
        requires
            old(self).wf(),
        ensures
            final(self).wf(),
            final(self)@ == (CacheView { rules: rules@, changed: true, ..old(self)@ }),
    {
        self.lsys.rules.rules = rules;
        self.drawer.changed = true;
        assert(self@ =~= (CacheView { rules: rules@, changed: true, ..old(self)@ }));
    }

    /// Replaces the replacement text of rule `i`, keeping its symbol; the
    /// geometry becomes stale.
    pub fn set_rule_replacement(&mut self, i: usize, replacement: String)
        requires
            old(self).wf(),
            i < old(self)@.rules.len(),
        ensures
            final(self).wf(),
            final(self)@ == (CacheView {
                rules: old(self)@.rules.update(i as int, (old(self)@.rules[i as int].0, replacement)),
                changed: true,
                ..old(self)@
            }),
    {
        let k = self.lsys.rules.rules[i].0;
        self.lsys.rules.rules.set(i, (k, replacement));
        self.drawer.changed = true;
        assert(self@ =~= (CacheView {
            rules: old(self)@.rules.update(i as int, (old(self)@.rules[i as int].0, replacement)),
            changed: true,
            ..old(self)@
        }));
    }

    /// Sets the number of generations; the geometry becomes stale.
    pub fn set_iterations(&mut self, iterations: usize)
        requires
            old(self).wf(),
        ensures
            final(self).wf(),
            final(self)@ == (CacheView { iterations, changed: true, ..old(self)@ }),
    {
        self.lsys.iterations = iterations;
        self.drawer.changed = true;
        assert(self@ =~= (CacheView { iterations, changed: true, ..old(self)@ }));
    }

    /// Replaces the command table; the geometry becomes stale.
    pub fn set_commands(&mut self, commands: CommandTable)
        requires
            old(self).wf(),
        ensures
            final(self).wf(),
            final(self)@ == (CacheView { commands: commands.entries@, changed: true, ..old(self)@ }),
    {
        self.commands = commands;
        self.drawer.changed = true;
        assert(self@ =~= (CacheView { commands: self.commands.entries@, changed: true, ..old(self)@ }));
    }

    /// Replaces the whole grammar, as when a saved configuration is loaded;
    /// the geometry becomes stale.
    pub fn set_lsys(&mut self, lsys: LSys)
        requires
            old(self).wf(),
        ensures
            final(self).wf(),
            final(self)@ == (CacheView {
                name: lsys.name@,
                start: lsys.rules.start@,
                rules: lsys.rules.rules@,
                iterations: lsys.iterations,
                changed: true,
                ..old(self)@
            }),
    {
        self.lsys = lsys;
        self.drawer.changed = true;
        assert(self@ =~= (CacheView {
            name: self.lsys.name@,
            start: self.lsys.rules.start@,
            rules: self.lsys.rules.rules@,
            iterations: self.lsys.iterations,
            changed: true,
            ..old(self)@
        }));
    }

    /// Renames the grammar; the geometry does not depend on the name.
    pub fn set_name(&mut self, name: String)
        requires
            old(self).wf(),
        ensures
            final(self).wf(),
            final(self)@ == (CacheView { name: name@, ..old(self)@ }),
    {
        self.lsys.name = name;
        assert(self@ =~= (CacheView { name: self.lsys.name@, ..old(self)@ }));
    }

    pub fn lsys(&self) -> (r: &LSys)
        ensures
            r.name@ == self@.name,
            r.rules.start@ == self@.start,
            r.rules.rules@ == self@.rules,
            r.iterations == self@.iterations,
    {
        &self.lsys
    }

    pub fn commands(&self) -> (r: &CommandTable)
        ensures
            r.entries@ == self@.commands,
    {
        &self.commands
    }

    /// The geometry last generated.
    pub fn geometry(&self) -> (r: &Turtle)
        requires
            self.wf(),
        ensures
            r.wf(),
            r.model() == self@.geometry,
    {
        &self.geometry
    }

    /// Whether the geometry is stale.
    pub fn is_changed(&self) -> (r: bool)
        ensures
            r == self@.changed,
    {
        self.drawer.changed
    }
}

/// Polling twice with no change in between does the work at most once: the
/// second poll finds the cache clean and leaves it, geometry included,
/// exactly as the first left it.
pub proof fn lemma_poll_idempotent(v: CacheView)
    ensures
        !poll_spec(v).changed,
        poll_spec(poll_spec(v)) == poll_spec(v),
{
}

} // verus!
