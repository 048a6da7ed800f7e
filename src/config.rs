use vstd::prelude::*;

verus! {

/// A variable assignment as the engine sees it: a name and its value.
pub type Assignment = (Seq<char>, Seq<char>);

/// No two assignments in the list share a name.
pub open spec fn unique_names(vars: Seq<Assignment>) -> bool {
    forall|i: int, j: int|
        0 <= i < vars.len() && 0 <= j < vars.len() && i != j ==> #[trigger] vars[i].0
            != #[trigger] vars[j].0
}

/// What a list of assignments leaves behind when applied in order to an engine
/// holding no variables: each name ends with the last value given to it.
pub open spec fn variable_map(vars: Seq<Assignment>) -> Map<Seq<char>, Seq<char>>
    decreases vars.len(),
{
    if vars.len() == 0 {
        Map::empty()
    } else {
        variable_map(vars.drop_last()).insert(vars.last().0, vars.last().1)
    }
}

/// The list of assignments after `name = value` is recorded: an existing entry
/// of that name takes the new value in place, otherwise the pair is appended.
pub open spec fn record_assignment(vars: Seq<Assignment>, name: Seq<char>, value: Seq<char>) -> Seq<
    Assignment,
> {
    if exists|i: int| 0 <= i < vars.len() && #[trigger] vars[i].0 == name {
        let i = choose|i: int| 0 <= i < vars.len() && #[trigger] vars[i].0 == name;
        vars.update(i, (name, value))
    } else {
        vars.push((name, value))
    }
}

/// The abstract content of a configuration snapshot.
pub struct ConfigView {
    pub datapath: Seq<char>,
    pub language: Seq<char>,
    pub variables: Seq<Assignment>,
}

impl ConfigView {
    /// The snapshot of a manager that was never initialised, or whose last
    /// initialisation failed: the empty data path is the sentinel.
    pub open spec fn is_initialized(self) -> bool {
        self.datapath.len() > 0
    }

    pub open spec fn variable_map(self) -> Map<Seq<char>, Seq<char>> {
        variable_map(self.variables)
    }
}

/// Recording an assignment keeps names unique.
pub proof fn lemma_record_keeps_unique(vars: Seq<Assignment>, name: Seq<char>, value: Seq<char>)
    requires
        unique_names(vars),
    ensures
        unique_names(record_assignment(vars, name, value)),
{
}

/// Recording an assignment maps its name to its value and leaves every other
/// name as it was.
pub proof fn lemma_record_assignment(vars: Seq<Assignment>, name: Seq<char>, value: Seq<char>)
    requires
        unique_names(vars),
    ensures
        variable_map(record_assignment(vars, name, value)) == variable_map(vars).insert(
            name,
            value,
        ),
{
    if exists|i: int| 0 <= i < vars.len() && #[trigger] vars[i].0 == name {
        let i = choose|i: int| 0 <= i < vars.len() && #[trigger] vars[i].0 == name;
        lemma_update_in_place(vars, i, value);
    } else {
        assert(record_assignment(vars, name, value).drop_last() == vars);
    }
}

/// Giving an entry a new value in place changes the map at that entry's name only.
proof fn lemma_update_in_place(vars: Seq<Assignment>, i: int, value: Seq<char>)
    requires
        unique_names(vars),
        0 <= i < vars.len(),
    ensures
        variable_map(vars.update(i, (vars[i].0, value))) == variable_map(vars).insert(
            vars[i].0,
            value,
        ),
    decreases vars.len(),
{
    let name = vars[i].0;
    let updated = vars.update(i, (name, value));
    if i == vars.len() - 1 {
        assert(updated.drop_last() == vars.drop_last());
        assert(variable_map(updated) == variable_map(vars).insert(name, value));
    } else {
        let front = vars.drop_last();
        assert(updated.drop_last() == front.update(i, (name, value)));
        assert(unique_names(front));
        lemma_update_in_place(front, i, value);
        let last = vars.last();
        assert(last.0 != name) by {
            assert(vars[vars.len() - 1].0 != vars[i].0);
        }
        assert(variable_map(updated) == variable_map(vars).insert(name, value));
    }
}

/// The configuration that fully determines reproducible engine state: the data
/// path and language it was initialised with, and every variable a caller set.
///
/// Variable names are unique; setting a name again overwrites its value.
pub struct TesseractConfiguration {
    datapath: String,
    language: String,
    variables: Vec<(String, String)>,
}

impl View for TesseractConfiguration {
    type V = ConfigView;

    closed spec fn view(&self) -> ConfigView {
        ConfigView {
            datapath: self.datapath@,
            language: self.language@,
            variables: self.variables@.map_values(|p: (String, String)| (p.0@, p.1@)),
        }
    }
}

impl TesseractConfiguration {
    /// The well-formedness of a snapshot: variable names are unique.
    pub open spec fn wf(&self) -> bool {
        unique_names(self@.variables)
    }

    /// An empty snapshot: no data path, no language, no variables.
    pub fn new() -> (r: Self)
        ensures
            r.wf(),
            r@.datapath.len() == 0,
            r@.language.len() == 0,
            r@.variables.len() == 0,
    {
        let r = TesseractConfiguration {
            datapath: String::new(),
            language: String::new(),
            variables: Vec::new(),
        };
        assert(r@.variables.len() == 0);
        r
    }

    /// The data path of the last successful initialisation; empty if none.
    pub fn datapath(&self) -> (r: &str)
        ensures
            r@ == self@.datapath,
    {
        self.datapath.as_str()
    }

    /// The language of the last successful initialisation; empty if none.
    pub fn language(&self) -> (r: &str)
        ensures
            r@ == self@.language,
    {
        self.language.as_str()
    }

    /// Whether the snapshot records an initialisation (its data path is not empty).
    pub fn is_initialized(&self) -> (r: bool)
        ensures
            r == self@.is_initialized(),
    {
        !self.datapath.as_str().is_empty()
    }

    /// Whether the snapshot holds exactly this data path and language.
    pub fn has_target(&self, datapath: &String, language: &String) -> (r: bool)
        ensures
            r == (self@.datapath == datapath@ && self@.language == language@),
    {
        self.datapath == *datapath && self.language == *language
    }

    /// The number of variables recorded.
    pub fn variable_count(&self) -> (r: usize)
        ensures
            r == self@.variables.len(),
    {
        self.variables.len()
    }

    /// The variable recorded at position `i`, in the order of replay.
    pub fn variable_at(&self, i: usize) -> (r: (&str, &str))
        requires
            i < self@.variables.len(),
        ensures
            r.0@ == self@.variables[i as int].0,
            r.1@ == self@.variables[i as int].1,
    {
        let p = &self.variables[i];
        (p.0.as_str(), p.1.as_str())
    }

    /// The value recorded for `name`, if any.
    pub fn variable(&self, name: &str) -> (r: Option<&str>)
        requires
            self.wf(),
        ensures
            r is None <==> !self@.variable_map().contains_key(name@),
            r is Some ==> r->Some_0@ == self@.variable_map()[name@],
    {
        let key = name.to_owned();
        match self.position(&key) {
            Some(i) => {
                proof {
                    lemma_map_at(self@.variables, i as int);
                }
                Some(self.variables[i].1.as_str())
            },
            None => {
                proof {
                    lemma_map_absent(self@.variables, name@);
                }
                None
            },
        }
    }

    /// Records `name = value`: an existing entry of that name is overwritten in
    /// place, otherwise the pair is appended. Returns the entry's position.
    pub fn set_variable(&mut self, name: String, value: String) -> (r: usize)
        requires
            old(self).wf(),
        ensures
            r < final(self)@.variables.len(),
            final(self)@.variables[r as int] == (name@, value@),
            final(self).wf(),
            final(self)@.datapath == old(self)@.datapath,
            final(self)@.language == old(self)@.language,
            final(self)@.variables == record_assignment(old(self)@.variables, name@, value@),
            final(self)@.variable_map() == old(self)@.variable_map().insert(name@, value@),
    {
        proof {
            lemma_record_keeps_unique(self@.variables, name@, value@);
            lemma_record_assignment(self@.variables, name@, value@);
        }
        let ghost vars = self@.variables;
        match self.position(&name) {
            Some(i) => {
                proof {
                    let j = choose|j: int| 0 <= j < vars.len() && #[trigger] vars[j].0 == name@;
                    assert(vars[i as int].0 == name@);
                    assert(j == i);
                }
                self.variables[i] = (name, value);
                assert(self@.variables == vars.update(i as int, (name@, value@)));
                i
            },
            None => {
                self.variables.push((name, value));
                assert(self@.variables == vars.push((name@, value@)));
                self.variables.len() - 1
            },
        }
    }

    /// The position of the entry named `name`, if there is one.
    fn position(&self, name: &String) -> (r: Option<usize>)
        requires
            self.wf(),
        ensures
            r is None ==> forall|j: int|
                0 <= j < self@.variables.len() ==> #[trigger] self@.variables[j].0 != name@,
            r is Some ==> r->Some_0 < self@.variables.len() && self@.variables[r->Some_0 as int].0
                == name@,
    {
        let mut i: usize = 0;
        while i < self.variables.len()
            invariant
                i <= self.variables@.len(),
                forall|j: int| 0 <= j < i ==> #[trigger] self@.variables[j].0 != name@,
            decreases self.variables@.len() - i,
        {
            if self.variables[i].0 == *name {
                return Some(i);
            }
            i += 1;
        }
        None
    }

    /// Records the data path and language of an initialisation about to be made.
    pub fn set_target(&mut self, datapath: String, language: String)
        requires
            old(self).wf(),
        ensures
            final(self).wf(),
            final(self)@ == (ConfigView { datapath: datapath@, language: language@, ..old(self)@ }),
    {
        self.datapath = datapath;
        self.language = language;
    }

    /// Returns the snapshot to the sentinel that marks it uninitialised, keeping
    /// its variables.
    pub fn clear_target(&mut self)
        requires
            old(self).wf(),
        ensures
            final(self).wf(),
            final(self)@ == (ConfigView {
                datapath: Seq::empty(),
                language: Seq::empty(),
                ..old(self)@
            }),
    {
        self.datapath = String::new();
        self.language = String::new();
    }

    /// A copy of the variables alone, under the sentinel data path and language.
    pub fn variables_only(&self) -> (r: Self)
        requires
            self.wf(),
        ensures
            r.wf(),
            r@.datapath.len() == 0,
            r@.language.len() == 0,
            r@.variables == self@.variables,
    {
        let mut variables: Vec<(String, String)> = Vec::new();
        let mut i: usize = 0;
        while i < self.variables.len()
            invariant
                i <= self.variables@.len(),
                variables@.len() == i,
                forall|j: int|
                    0 <= j < i ==> #[trigger] variables@[j] == self.variables@[j],
            decreases self.variables@.len() - i,
        {
            let p = &self.variables[i];
            variables.push((p.0.clone(), p.1.clone()));
            i += 1;
        }
        let r = TesseractConfiguration {
            datapath: String::new(),
            language: String::new(),
            variables,
        };
        assert(r@.variables == self@.variables);
        r
    }
}

impl Clone for TesseractConfiguration {
    fn clone(&self) -> (r: Self)
        ensures
            r@ == self@,
    {
        let mut variables: Vec<(String, String)> = Vec::new();
        let mut i: usize = 0;
        while i < self.variables.len()
            invariant
                i <= self.variables@.len(),
                variables@.len() == i,
                forall|j: int|
                    0 <= j < i ==> #[trigger] variables@[j] == self.variables@[j],
            decreases self.variables@.len() - i,
        {
            let p = &self.variables[i];
            variables.push((p.0.clone(), p.1.clone()));
            i += 1;
        }
        let r = TesseractConfiguration {
            datapath: self.datapath.clone(),
            language: self.language.clone(),
            variables,
        };
        assert(r@.variables == self@.variables);
        r
    }
}

/// With unique names, the entry at `i` gives its name's value.
proof fn lemma_map_at(vars: Seq<Assignment>, i: int)
    requires
        unique_names(vars),
        0 <= i < vars.len(),
    ensures
        variable_map(vars).contains_key(vars[i].0),
        variable_map(vars)[vars[i].0] == vars[i].1,
    decreases vars.len(),
{
    if i < vars.len() - 1 {
        let front = vars.drop_last();
        assert(front[i] == vars[i]);
        lemma_map_at(front, i);
        assert(vars[vars.len() - 1].0 != vars[i].0);
    }
}

/// A name no entry carries has no value.
proof fn lemma_map_absent(vars: Seq<Assignment>, name: Seq<char>)
    requires
        forall|j: int| 0 <= j < vars.len() ==> #[trigger] vars[j].0 != name,
    ensures
        !variable_map(vars).contains_key(name),
    decreases vars.len(),
{
    if vars.len() > 0 {
        let front = vars.drop_last();
        assert forall|j: int| 0 <= j < front.len() implies #[trigger] front[j].0 != name by {
            assert(front[j] == vars[j]);
        }
        lemma_map_absent(front, name);
        assert(vars[vars.len() - 1].0 != name);
    }
}

} // verus!
