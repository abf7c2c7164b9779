//! The registry of modules, and the labels of the kinds that a tab can have.

use crate::renderer::{draw, redraw, Effects, Renderer};
use crate::tab::ModuleManifest;
use vstd::prelude::*;

verus! {

/// What a label shows for a kind of that name.
pub open spec fn label_text(name: Seq<char>) -> Seq<char> {
    name + " ▾"@
}

/// The keys and labels of the kinds: the built-in ones, the modules, then the
/// agents. Of two entries with one key the later one counts.
pub open spec fn labels(ms: Seq<ModuleManifest>, agents: Seq<String>) -> Seq<
    (Seq<char>, Seq<char>),
> {
    seq![("shell"@, label_text("Shell"@)), ("welcome"@, label_text("Welcome"@))] + ms.map_values(
        |m: ModuleManifest| (m.id@, label_text(m.name@)),
    ) + agents.map_values(|a: String| (a@, label_text(a@)))
}

/// Pairs of strings, as characters.
pub open spec fn pair_views(v: Seq<(String, String)>) -> Seq<(Seq<char>, Seq<char>)> {
    v.map_values(|p: (String, String)| (p.0@, p.1@))
}

fn label(name: &str) -> (s: String)
    ensures
        s@ == label_text(name@),
{
    let mut s = name.to_owned();
    s.append(" ▾");
    s
}

impl Renderer {
    /// The keys and labels of the kinds that a tab can have; `agents` are the
    /// names of the agents that can be hosted.
    pub fn kind_labels(&self, agents: &Vec<String>) -> (r: Vec<(String, String)>)
        ensures
            pair_views(r@) == labels(self.modules@, agents@),
    {
        let mut r: Vec<(String, String)> = Vec::new();
        r.push(("shell".to_owned(), label("Shell")));
        r.push(("welcome".to_owned(), label("Welcome")));
        let ghost want = labels(self.modules@, agents@);
        let ghost m = self.modules@.len() as int;
        let mut i: usize = 0;
        assert(pair_views(r@) =~= want.take(2));
        while i < self.modules.len()
            invariant
                i <= self.modules@.len(),
                m == self.modules@.len(),
                want == labels(self.modules@, agents@),
                pair_views(r@) == want.take(2 + i),
            decreases self.modules.len() - i,
        {
            let ghost before = r@;
            r.push((self.modules[i].id.clone(), label(self.modules[i].name.as_str())));
            assert(pair_views(r@) =~= pair_views(before).push((r@.last().0@, r@.last().1@)));
            assert(pair_views(r@) =~= want.take(2 + i + 1));
            i = i + 1;
        }
        let mut j: usize = 0;
        while j < agents.len()
            invariant
                j <= agents@.len(),
                m == self.modules@.len(),
                want == labels(self.modules@, agents@),
                pair_views(r@) == want.take(2 + m + j),
            decreases agents.len() - j,
        {
            let ghost before = r@;
            r.push((agents[j].clone(), label(agents[j].as_str())));
            assert(pair_views(r@) =~= pair_views(before).push((r@.last().0@, r@.last().1@)));
            assert(pair_views(r@) =~= want.take(2 + m + j + 1));
            j = j + 1;
        }
        assert(want.take(2 + m + agents@.len()) =~= want);
        r
    }

    /// The modules on disk are these now. Sessions keep running; a new module
    /// can be picked at once.
    pub fn reload_modules(&mut self, modules: Vec<ModuleManifest>) -> (e: Effects)
        requires
            old(self).wf(),
        ensures
            final(self).wf(),
            *final(self) == (Renderer { modules, ..*old(self) }),
            e == draw(),
    {
        self.modules = modules;
        redraw()
    }

    /// Modules have come, gone or changed on disk.
    pub fn handle_modules_changed(&mut self, modules: Vec<ModuleManifest>) -> (e: Effects)
        requires
            old(self).wf(),
        ensures
            final(self).wf(),
            *final(self) == (Renderer { modules, ..*old(self) }),
            e == draw(),
    {
        self.reload_modules(modules)
    }
}

} // verus!
