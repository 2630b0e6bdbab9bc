//! Jobs and their steps.
use vstd::prelude::*;
use crate::keyed::KeyedMap;
use crate::permissions::{grant, granted, PermissionValue, Permissions, Scope};
use crate::settings::{Concurrency, Container, Defaults, Environment, Strategy};
use crate::text::{push_text, texts};
use serde_yml::Value;
use crate::doc::{copy_texts, data_map_doc, entries_of, entry_keys, holds_in, push_opt, is_data_map, is_text, is_text_map, is_texts, keys_of, opt_key, text_map_doc, Doc};

verus! {

/// One step of a job.
#[derive(Debug, Clone)]
pub struct JobStep {
    pub id: Option<String>,
    pub if_cond: Option<String>,
    pub name: Option<String>,
    pub uses: Option<String>,
    pub run: Option<String>,
    pub working_directory: Option<String>,
    pub shell: Option<String>,
    pub with: KeyedMap<Value>,
    pub env: KeyedMap<String>,
    pub strategy: Option<Strategy>,
    pub continue_on_error: Option<String>,
    pub timeout_minutes: Option<String>,
}

impl JobStep {
    /// The keyed fields are in order.
    pub open spec fn wf(&self) -> bool {
        self.with.wf()
        && self.env.wf()
    }

    /// Every field is at its starting value.
    pub open spec fn is_blank(&self) -> bool {
        self.id is None
        && self.if_cond is None
        && self.name is None
        && self.uses is None
        && self.run is None
        && self.working_directory is None
        && self.shell is None
        && self.with.keys().len() == 0
        && self.env.keys().len() == 0
        && self.strategy is None
        && self.continue_on_error is None
        && self.timeout_minutes is None
    }

    /// A value with every field at its starting value.
    pub fn new() -> (r: JobStep)
        ensures
            r.is_blank(),
            r.wf(),
    {
        JobStep {
            id: Option::None,
            if_cond: Option::None,
            name: Option::None,
            uses: Option::None,
            run: Option::None,
            working_directory: Option::None,
            shell: Option::None,
            with: KeyedMap::new(),
            env: KeyedMap::new(),
            strategy: Option::None,
            continue_on_error: Option::None,
            timeout_minutes: Option::None,
        }
    }

    /// Starts a builder with every field at its starting value.
    pub fn builder() -> (r: JobStepBuilder)
        ensures
            r.staged().is_blank(),
            r.staged().wf(),
    {
        JobStepBuilder { staged: JobStep::new() }
    }
}

impl Default for JobStep {
    fn default() -> (r: Self)
        ensures
            r.is_blank(),
    {
        JobStep::new()
    }
}

/// Stages a [`JobStep`]: lists only grow at their end, keyed fields take
/// the last value set under a key, and `build` hands out the result.
pub struct JobStepBuilder {
    staged: JobStep,
}

impl JobStepBuilder {
    /// What `build` would hand out now.
    pub closed spec fn staged(&self) -> JobStep {
        self.staged
    }

    pub fn build(self) -> (r: JobStep)
        ensures
            r == self.staged(),
    {
        self.staged
    }

    /// Sets `id`.
    pub fn id(self, value: &str) -> (r: JobStepBuilder)
        ensures
            r.staged().id is Some,
            r.staged().id->Some_0@ == value@,
            (r.staged() == (JobStep { id: r.staged().id, ..self.staged() })),
    {
        let mut b = self;
        b.staged.id = Option::Some(value.to_owned());
        b
    }

    /// Sets `if_cond`.
    pub fn if_cond(self, value: &str) -> (r: JobStepBuilder)
        ensures
            r.staged().if_cond is Some,
            r.staged().if_cond->Some_0@ == value@,
            (r.staged() == (JobStep { if_cond: r.staged().if_cond, ..self.staged() })),
    {
        let mut b = self;
        b.staged.if_cond = Option::Some(value.to_owned());
        b
    }

    /// Sets `name`.
    pub fn name(self, value: &str) -> (r: JobStepBuilder)
        ensures
            r.staged().name is Some,
            r.staged().name->Some_0@ == value@,
            (r.staged() == (JobStep { name: r.staged().name, ..self.staged() })),
    {
        let mut b = self;
        b.staged.name = Option::Some(value.to_owned());
        b
    }

    /// Sets `uses`.
    pub fn uses(self, value: &str) -> (r: JobStepBuilder)
        ensures
            r.staged().uses is Some,
            r.staged().uses->Some_0@ == value@,
            (r.staged() == (JobStep { uses: r.staged().uses, ..self.staged() })),
    {
        let mut b = self;
        b.staged.uses = Option::Some(value.to_owned());
        b
    }

    /// Sets `run`.
    pub fn run(self, value: &str) -> (r: JobStepBuilder)
        ensures
            r.staged().run is Some,
            r.staged().run->Some_0@ == value@,
            (r.staged() == (JobStep { run: r.staged().run, ..self.staged() })),
    {
        let mut b = self;
        b.staged.run = Option::Some(value.to_owned());
        b
    }

    /// Sets `working_directory`.
    pub fn working_directory(self, value: &str) -> (r: JobStepBuilder)
        ensures
            r.staged().working_directory is Some,
            r.staged().working_directory->Some_0@ == value@,
            (r.staged() == (JobStep { working_directory: r.staged().working_directory, ..self.staged() })),
    {
        let mut b = self;
        b.staged.working_directory = Option::Some(value.to_owned());
        b
    }

    /// Sets `shell`.
    pub fn shell(self, value: &str) -> (r: JobStepBuilder)
        ensures
            r.staged().shell is Some,
            r.staged().shell->Some_0@ == value@,
            (r.staged() == (JobStep { shell: r.staged().shell, ..self.staged() })),
    {
        let mut b = self;
        b.staged.shell = Option::Some(value.to_owned());
        b
    }

    /// Sets `key` to `value` in `with`.
    pub fn with(self, key: &str, value: Value) -> (r: JobStepBuilder)
        requires
            self.staged().wf(),
        ensures
            r.staged().wf(),
            r.staged().with.view() == self.staged().with.view().insert(key@, value),
            (r.staged() == (JobStep { with: r.staged().with, ..self.staged() })),
    {
        let mut b = self;
        b.staged.with.insert(key.to_owned(), value);
        b
    }

    /// Sets `key` to `value` in `env`.
    pub fn env(self, key: &str, value: &str) -> (r: JobStepBuilder)
        requires
            self.staged().wf(),
        ensures
            r.staged().wf(),
            r.staged().env.view() == self.staged().env.view().insert(key@, r.staged().env.view()[key@]),
            r.staged().env.view()[key@]@ == value@,
            (r.staged() == (JobStep { env: r.staged().env, ..self.staged() })),
    {
        let mut b = self;
        b.staged.env.insert(key.to_owned(), value.to_owned());
        b
    }

    /// Sets `strategy`.
    pub fn strategy(self, value: Strategy) -> (r: JobStepBuilder)
        ensures
            r.staged().strategy == Option::Some(value),
            (r.staged() == (JobStep { strategy: r.staged().strategy, ..self.staged() })),
    {
        let mut b = self;
        b.staged.strategy = Option::Some(value);
        b
    }

    /// Sets `continue_on_error`.
    pub fn continue_on_error(self, value: &str) -> (r: JobStepBuilder)
        ensures
            r.staged().continue_on_error is Some,
            r.staged().continue_on_error->Some_0@ == value@,
            (r.staged() == (JobStep { continue_on_error: r.staged().continue_on_error, ..self.staged() })),
    {
        let mut b = self;
        b.staged.continue_on_error = Option::Some(value.to_owned());
        b
    }

    /// Sets `timeout_minutes`.
    pub fn timeout_minutes(self, value: &str) -> (r: JobStepBuilder)
        ensures
            r.staged().timeout_minutes is Some,
            r.staged().timeout_minutes->Some_0@ == value@,
            (r.staged() == (JobStep { timeout_minutes: r.staged().timeout_minutes, ..self.staged() })),
    {
        let mut b = self;
        b.staged.timeout_minutes = Option::Some(value.to_owned());
        b
    }

}

impl JobStep {
    /// `d` is the document of this value: the fields that are not empty,
    /// in declaration order under their written keys, each with its own document.
    pub open spec fn documented_by(&self, d: Doc) -> bool {
        &&& d is Fields
        &&& keys_of(d) == opt_key(self.id is Some, "id"@)
            + opt_key(self.if_cond is Some, "if"@)
            + opt_key(self.name is Some, "name"@)
            + opt_key(self.uses is Some, "uses"@)
            + opt_key(self.run is Some, "run"@)
            + opt_key(self.working_directory is Some, "working-directory"@)
            + opt_key(self.shell is Some, "shell"@)
            + opt_key(self.with.keys().len() > 0, "with"@)
            + opt_key(self.env.keys().len() > 0, "env"@)
            + opt_key((self.strategy is Some && !self.strategy->Some_0.is_empty_spec()), "strategy"@)
            + opt_key(self.continue_on_error is Some, "continue-on-error"@)
            + opt_key(self.timeout_minutes is Some, "timeout-minutes"@)
        &&& self.documents_part_0(entries_of(d))
        &&& self.documents_part_1(entries_of(d))
    }

    /// Each of `id`, `if`, `name`, `uses`, `run`, `working-directory`, `shell` that is not empty stands in `fs` with its document.
    pub open spec fn documents_part_0(&self, fs: Seq<(String, Doc)>) -> bool {
        &&& self.id is Some ==> holds_in(fs, "id"@, |c: Doc| is_text(c, self.id->Some_0@))
        &&& self.if_cond is Some ==> holds_in(fs, "if"@, |c: Doc| is_text(c, self.if_cond->Some_0@))
        &&& self.name is Some ==> holds_in(fs, "name"@, |c: Doc| is_text(c, self.name->Some_0@))
        &&& self.uses is Some ==> holds_in(fs, "uses"@, |c: Doc| is_text(c, self.uses->Some_0@))
        &&& self.run is Some ==> holds_in(fs, "run"@, |c: Doc| is_text(c, self.run->Some_0@))
        &&& self.working_directory is Some ==> holds_in(fs, "working-directory"@, |c: Doc| is_text(c, self.working_directory->Some_0@))
        &&& self.shell is Some ==> holds_in(fs, "shell"@, |c: Doc| is_text(c, self.shell->Some_0@))
    }

    proof fn lemma_part_0_kept(&self, a: Seq<(String, Doc)>, b: Seq<(String, Doc)>)
        requires
            self.documents_part_0(a),
            b.len() >= a.len(),
            forall|i: int| 0 <= i < a.len() ==> #[trigger] b[i] == a[i],
        ensures
            self.documents_part_0(b),
    {
        if self.id is Some {
            let i = choose|i: int| 0 <= i < a.len() && a[i].0@ == "id"@ && is_text(a[i].1, self.id->Some_0@);
            assert(b[i] == a[i]);
        }
        if self.if_cond is Some {
            let i = choose|i: int| 0 <= i < a.len() && a[i].0@ == "if"@ && is_text(a[i].1, self.if_cond->Some_0@);
            assert(b[i] == a[i]);
        }
        if self.name is Some {
            let i = choose|i: int| 0 <= i < a.len() && a[i].0@ == "name"@ && is_text(a[i].1, self.name->Some_0@);
            assert(b[i] == a[i]);
        }
        if self.uses is Some {
            let i = choose|i: int| 0 <= i < a.len() && a[i].0@ == "uses"@ && is_text(a[i].1, self.uses->Some_0@);
            assert(b[i] == a[i]);
        }
        if self.run is Some {
            let i = choose|i: int| 0 <= i < a.len() && a[i].0@ == "run"@ && is_text(a[i].1, self.run->Some_0@);
            assert(b[i] == a[i]);
        }
        if self.working_directory is Some {
            let i = choose|i: int| 0 <= i < a.len() && a[i].0@ == "working-directory"@ && is_text(a[i].1, self.working_directory->Some_0@);
            assert(b[i] == a[i]);
        }
        if self.shell is Some {
            let i = choose|i: int| 0 <= i < a.len() && a[i].0@ == "shell"@ && is_text(a[i].1, self.shell->Some_0@);
            assert(b[i] == a[i]);
        }
    }

    #[verifier::spinoff_prover]
    #[verifier::rlimit(100)]
    fn push_doc_fields_0(&self, fs: &mut Vec<(String, Doc)>)
        ensures
            entry_keys(final(fs)@) == entry_keys(old(fs)@) + opt_key(self.id is Some, "id"@)
                + opt_key(self.if_cond is Some, "if"@)
                + opt_key(self.name is Some, "name"@)
                + opt_key(self.uses is Some, "uses"@)
                + opt_key(self.run is Some, "run"@)
                + opt_key(self.working_directory is Some, "working-directory"@)
                + opt_key(self.shell is Some, "shell"@),
            final(fs)@.len() >= old(fs)@.len(),
            forall|i: int| 0 <= i < old(fs)@.len() ==> #[trigger] final(fs)@[i] == old(fs)@[i],
            self.documents_part_0(final(fs)@),
    {
        // Each value is built whether or not its field is written; `push_opt`
        // drops the ones that are left out.
        let ghost at0: int = fs@.len() as int;
        let w0 = self.id.is_some();
        let c0 = match &self.id { Option::Some(x) => Doc::Text(x.clone()), Option::None => Doc::Flag(false) };
        push_opt(fs, w0, "id", c0);
        let ghost at1: int = fs@.len() as int;
        let w1 = self.if_cond.is_some();
        let c1 = match &self.if_cond { Option::Some(x) => Doc::Text(x.clone()), Option::None => Doc::Flag(false) };
        push_opt(fs, w1, "if", c1);
        let ghost at2: int = fs@.len() as int;
        let w2 = self.name.is_some();
        let c2 = match &self.name { Option::Some(x) => Doc::Text(x.clone()), Option::None => Doc::Flag(false) };
        push_opt(fs, w2, "name", c2);
        let ghost at3: int = fs@.len() as int;
        let w3 = self.uses.is_some();
        let c3 = match &self.uses { Option::Some(x) => Doc::Text(x.clone()), Option::None => Doc::Flag(false) };
        push_opt(fs, w3, "uses", c3);
        let ghost at4: int = fs@.len() as int;
        let w4 = self.run.is_some();
        let c4 = match &self.run { Option::Some(x) => Doc::Text(x.clone()), Option::None => Doc::Flag(false) };
        push_opt(fs, w4, "run", c4);
        let ghost at5: int = fs@.len() as int;
        let w5 = self.working_directory.is_some();
        let c5 = match &self.working_directory { Option::Some(x) => Doc::Text(x.clone()), Option::None => Doc::Flag(false) };
        push_opt(fs, w5, "working-directory", c5);
        let ghost at6: int = fs@.len() as int;
        let w6 = self.shell.is_some();
        let c6 = match &self.shell { Option::Some(x) => Doc::Text(x.clone()), Option::None => Doc::Flag(false) };
        push_opt(fs, w6, "shell", c6);
        proof {
            if self.id is Some {
                assert(fs@[at0].0@ == "id"@);
                assert(is_text(fs@[at0].1, self.id->Some_0@));
            }
            if self.if_cond is Some {
                assert(fs@[at1].0@ == "if"@);
                assert(is_text(fs@[at1].1, self.if_cond->Some_0@));
            }
            if self.name is Some {
                assert(fs@[at2].0@ == "name"@);
                assert(is_text(fs@[at2].1, self.name->Some_0@));
            }
            if self.uses is Some {
                assert(fs@[at3].0@ == "uses"@);
                assert(is_text(fs@[at3].1, self.uses->Some_0@));
            }
            if self.run is Some {
                assert(fs@[at4].0@ == "run"@);
                assert(is_text(fs@[at4].1, self.run->Some_0@));
            }
            if self.working_directory is Some {
                assert(fs@[at5].0@ == "working-directory"@);
                assert(is_text(fs@[at5].1, self.working_directory->Some_0@));
            }
            if self.shell is Some {
                assert(fs@[at6].0@ == "shell"@);
                assert(is_text(fs@[at6].1, self.shell->Some_0@));
            }
        }
    }

    /// Each of `with`, `env`, `strategy`, `continue-on-error`, `timeout-minutes` that is not empty stands in `fs` with its document.
    pub open spec fn documents_part_1(&self, fs: Seq<(String, Doc)>) -> bool {
        &&& self.with.keys().len() > 0 ==> holds_in(fs, "with"@, |c: Doc| is_data_map(c, self.with))
        &&& self.env.keys().len() > 0 ==> holds_in(fs, "env"@, |c: Doc| is_text_map(c, self.env))
        &&& (self.strategy is Some && !self.strategy->Some_0.is_empty_spec()) ==> holds_in(fs, "strategy"@, |c: Doc| self.strategy->Some_0.documented_by(c))
        &&& self.continue_on_error is Some ==> holds_in(fs, "continue-on-error"@, |c: Doc| is_text(c, self.continue_on_error->Some_0@))
        &&& self.timeout_minutes is Some ==> holds_in(fs, "timeout-minutes"@, |c: Doc| is_text(c, self.timeout_minutes->Some_0@))
    }

    proof fn lemma_part_1_kept(&self, a: Seq<(String, Doc)>, b: Seq<(String, Doc)>)
        requires
            self.documents_part_1(a),
            b.len() >= a.len(),
            forall|i: int| 0 <= i < a.len() ==> #[trigger] b[i] == a[i],
        ensures
            self.documents_part_1(b),
    {
        if self.with.keys().len() > 0 {
            let i = choose|i: int| 0 <= i < a.len() && a[i].0@ == "with"@ && is_data_map(a[i].1, self.with);
            assert(b[i] == a[i]);
        }
        if self.env.keys().len() > 0 {
            let i = choose|i: int| 0 <= i < a.len() && a[i].0@ == "env"@ && is_text_map(a[i].1, self.env);
            assert(b[i] == a[i]);
        }
        if (self.strategy is Some && !self.strategy->Some_0.is_empty_spec()) {
            let i = choose|i: int| 0 <= i < a.len() && a[i].0@ == "strategy"@ && self.strategy->Some_0.documented_by(a[i].1);
            assert(b[i] == a[i]);
        }
        if self.continue_on_error is Some {
            let i = choose|i: int| 0 <= i < a.len() && a[i].0@ == "continue-on-error"@ && is_text(a[i].1, self.continue_on_error->Some_0@);
            assert(b[i] == a[i]);
        }
        if self.timeout_minutes is Some {
            let i = choose|i: int| 0 <= i < a.len() && a[i].0@ == "timeout-minutes"@ && is_text(a[i].1, self.timeout_minutes->Some_0@);
            assert(b[i] == a[i]);
        }
    }

    #[verifier::spinoff_prover]
    #[verifier::rlimit(100)]
    fn push_doc_fields_1(&self, fs: &mut Vec<(String, Doc)>)
        ensures
            entry_keys(final(fs)@) == entry_keys(old(fs)@) + opt_key(self.with.keys().len() > 0, "with"@)
                + opt_key(self.env.keys().len() > 0, "env"@)
                + opt_key((self.strategy is Some && !self.strategy->Some_0.is_empty_spec()), "strategy"@)
                + opt_key(self.continue_on_error is Some, "continue-on-error"@)
                + opt_key(self.timeout_minutes is Some, "timeout-minutes"@),
            final(fs)@.len() >= old(fs)@.len(),
            forall|i: int| 0 <= i < old(fs)@.len() ==> #[trigger] final(fs)@[i] == old(fs)@[i],
            self.documents_part_1(final(fs)@),
    {
        // Each value is built whether or not its field is written; `push_opt`
        // drops the ones that are left out.
        let ghost at0: int = fs@.len() as int;
        let w0 = self.with.len() > 0;
        let c0 = data_map_doc(&self.with);
        push_opt(fs, w0, "with", c0);
        let ghost at1: int = fs@.len() as int;
        let w1 = self.env.len() > 0;
        let c1 = text_map_doc(&self.env);
        push_opt(fs, w1, "env", c1);
        let ghost at2: int = fs@.len() as int;
        let w2 = match &self.strategy { Option::Some(x) => !x.is_empty(), Option::None => false };
        let c2 = match &self.strategy { Option::Some(x) => x.to_doc(), Option::None => Doc::Flag(false) };
        push_opt(fs, w2, "strategy", c2);
        let ghost at3: int = fs@.len() as int;
        let w3 = self.continue_on_error.is_some();
        let c3 = match &self.continue_on_error { Option::Some(x) => Doc::Text(x.clone()), Option::None => Doc::Flag(false) };
        push_opt(fs, w3, "continue-on-error", c3);
        let ghost at4: int = fs@.len() as int;
        let w4 = self.timeout_minutes.is_some();
        let c4 = match &self.timeout_minutes { Option::Some(x) => Doc::Text(x.clone()), Option::None => Doc::Flag(false) };
        push_opt(fs, w4, "timeout-minutes", c4);
        proof {
            if self.with.keys().len() > 0 {
                assert(fs@[at0].0@ == "with"@);
                assert(is_data_map(fs@[at0].1, self.with));
            }
            if self.env.keys().len() > 0 {
                assert(fs@[at1].0@ == "env"@);
                assert(is_text_map(fs@[at1].1, self.env));
            }
            if (self.strategy is Some && !self.strategy->Some_0.is_empty_spec()) {
                assert(fs@[at2].0@ == "strategy"@);
                assert(self.strategy->Some_0.documented_by(fs@[at2].1));
            }
            if self.continue_on_error is Some {
                assert(fs@[at3].0@ == "continue-on-error"@);
                assert(is_text(fs@[at3].1, self.continue_on_error->Some_0@));
            }
            if self.timeout_minutes is Some {
                assert(fs@[at4].0@ == "timeout-minutes"@);
                assert(is_text(fs@[at4].1, self.timeout_minutes->Some_0@));
            }
        }
    }

    /// The document of this value.
    #[verifier::spinoff_prover]
    #[verifier::rlimit(100)]
    pub fn to_doc(&self) -> (r: Doc)
        ensures
            self.documented_by(r),
    {
        let mut fs: Vec<(String, Doc)> = Vec::new();
        assert(entry_keys(fs@) =~= Seq::<Seq<char>>::empty());
        let ghost before0 = fs@;
        self.push_doc_fields_0(&mut fs);
        assert(entry_keys(fs@) =~= opt_key(self.id is Some, "id"@)
            + opt_key(self.if_cond is Some, "if"@)
            + opt_key(self.name is Some, "name"@)
            + opt_key(self.uses is Some, "uses"@)
            + opt_key(self.run is Some, "run"@)
            + opt_key(self.working_directory is Some, "working-directory"@)
            + opt_key(self.shell is Some, "shell"@));
        let ghost before1 = fs@;
        self.push_doc_fields_1(&mut fs);
        proof {
            self.lemma_part_0_kept(before1, fs@);
        }
        Doc::Fields(fs)
    }
}

/// One job of a workflow.
#[derive(Debug, Clone)]
pub struct Job {
    pub name: Option<Value>,
    pub id: Option<Value>,
    pub permissions: Option<Permissions>,
    pub needs: Vec<String>,
    pub if_cond: Option<String>,
    pub runs_on: Option<String>,
    pub environment: Environment,
    pub concurrency: Concurrency,
    pub outputs: KeyedMap<String>,
    pub env: KeyedMap<String>,
    pub defaults: Defaults,
    pub steps: Vec<JobStep>,
    pub strategy: Strategy,
    pub timeout_minutes: Option<Value>,
    pub container: Container,
    pub services: KeyedMap<Container>,
    pub uses: Option<Value>,
    pub with: KeyedMap<Value>,
    pub secrets: KeyedMap<String>,
}

impl Job {
    /// The keyed fields are in order.
    pub open spec fn wf(&self) -> bool {
        self.outputs.wf()
        && self.env.wf()
        && self.services.wf()
        && self.with.wf()
        && self.secrets.wf()
    }

    /// Every field is at its starting value.
    pub open spec fn is_blank(&self) -> bool {
        self.name is None
        && self.id is None
        && self.permissions is None
        && self.needs@.len() == 0
        && self.if_cond is None
        && self.runs_on is None
        && self.environment.is_blank()
        && self.concurrency.is_blank()
        && self.outputs.keys().len() == 0
        && self.env.keys().len() == 0
        && self.defaults.is_blank()
        && self.steps@.len() == 0
        && self.strategy.is_blank()
        && self.timeout_minutes is None
        && self.container.is_blank()
        && self.services.keys().len() == 0
        && self.uses is None
        && self.with.keys().len() == 0
        && self.secrets.keys().len() == 0
    }

    /// A value with every field at its starting value.
    pub fn new() -> (r: Job)
        ensures
            r.is_blank(),
            r.wf(),
    {
        Job {
            name: Option::None,
            id: Option::None,
            permissions: Option::None,
            needs: Vec::new(),
            if_cond: Option::None,
            runs_on: Option::None,
            environment: Environment::new(),
            concurrency: Concurrency::new(),
            outputs: KeyedMap::new(),
            env: KeyedMap::new(),
            defaults: Defaults::new(),
            steps: Vec::new(),
            strategy: Strategy::new(),
            timeout_minutes: Option::None,
            container: Container::new(),
            services: KeyedMap::new(),
            uses: Option::None,
            with: KeyedMap::new(),
            secrets: KeyedMap::new(),
        }
    }

    /// Starts a builder with every field at its starting value.
    pub fn builder() -> (r: JobBuilder)
        ensures
            r.staged().is_blank(),
            r.staged().wf(),
    {
        JobBuilder { staged: Job::new() }
    }
}

impl Default for Job {
    fn default() -> (r: Self)
        ensures
            r.is_blank(),
    {
        Job::new()
    }
}

/// Stages a [`Job`]: lists only grow at their end, keyed fields take
/// the last value set under a key, and `build` hands out the result.
pub struct JobBuilder {
    staged: Job,
}

impl JobBuilder {
    /// What `build` would hand out now.
    pub closed spec fn staged(&self) -> Job {
        self.staged
    }

    pub fn build(self) -> (r: Job)
        ensures
            r == self.staged(),
    {
        self.staged
    }

    /// Sets `name`.
    pub fn name(self, value: Value) -> (r: JobBuilder)
        ensures
            r.staged().name == Option::Some(value),
            (r.staged() == (Job { name: r.staged().name, ..self.staged() })),
    {
        let mut b = self;
        b.staged.name = Option::Some(value);
        b
    }

    /// Sets `id`.
    pub fn id(self, value: Value) -> (r: JobBuilder)
        ensures
            r.staged().id == Option::Some(value),
            (r.staged() == (Job { id: r.staged().id, ..self.staged() })),
    {
        let mut b = self;
        b.staged.id = Option::Some(value);
        b
    }

    /// Grants `value` on `scope`, creating the permission set when there is none.
    pub fn grant_permission(self, scope: Scope, value: PermissionValue) -> (r: JobBuilder)
        ensures
            r.staged().permissions == Option::Some(granted(self.staged().permissions, scope, value)),
            (r.staged() == (Job { permissions: r.staged().permissions, ..self.staged() })),
    {
        let mut b = self;
        grant(&mut b.staged.permissions, scope, value);
        b
    }

    /// Grants read access on `actions`.
    pub fn actions_read_permission(self) -> (r: JobBuilder)
        ensures
            r.staged().permissions == Option::Some(granted(self.staged().permissions, Scope::Actions, PermissionValue::Read)),
            (r.staged() == (Job { permissions: r.staged().permissions, ..self.staged() })),
    {
        let mut b = self;
        grant(&mut b.staged.permissions, Scope::Actions, PermissionValue::Read);
        b
    }

    /// Grants write access on `actions`.
    pub fn actions_write_permission(self) -> (r: JobBuilder)
        ensures
            r.staged().permissions == Option::Some(granted(self.staged().permissions, Scope::Actions, PermissionValue::Write)),
            (r.staged() == (Job { permissions: r.staged().permissions, ..self.staged() })),
    {
        let mut b = self;
        grant(&mut b.staged.permissions, Scope::Actions, PermissionValue::Write);
        b
    }

    /// Grants read access on `attestations`.
    pub fn attestations_read_permission(self) -> (r: JobBuilder)
        ensures
            r.staged().permissions == Option::Some(granted(self.staged().permissions, Scope::Attestations, PermissionValue::Read)),
            (r.staged() == (Job { permissions: r.staged().permissions, ..self.staged() })),
    {
        let mut b = self;
        grant(&mut b.staged.permissions, Scope::Attestations, PermissionValue::Read);
        b
    }

    /// Grants write access on `attestations`.
    pub fn attestations_write_permission(self) -> (r: JobBuilder)
        ensures
            r.staged().permissions == Option::Some(granted(self.staged().permissions, Scope::Attestations, PermissionValue::Write)),
            (r.staged() == (Job { permissions: r.staged().permissions, ..self.staged() })),
    {
        let mut b = self;
        grant(&mut b.staged.permissions, Scope::Attestations, PermissionValue::Write);
        b
    }

    /// Grants read access on `checks`.
    pub fn checks_read_permission(self) -> (r: JobBuilder)
        ensures
            r.staged().permissions == Option::Some(granted(self.staged().permissions, Scope::Checks, PermissionValue::Read)),
            (r.staged() == (Job { permissions: r.staged().permissions, ..self.staged() })),
    {
        let mut b = self;
        grant(&mut b.staged.permissions, Scope::Checks, PermissionValue::Read);
        b
    }

    /// Grants write access on `checks`.
    pub fn checks_write_permission(self) -> (r: JobBuilder)
        ensures
            r.staged().permissions == Option::Some(granted(self.staged().permissions, Scope::Checks, PermissionValue::Write)),
            (r.staged() == (Job { permissions: r.staged().permissions, ..self.staged() })),
    {
        let mut b = self;
        grant(&mut b.staged.permissions, Scope::Checks, PermissionValue::Write);
        b
    }

    /// Grants read access on `contents`.
    pub fn contents_read_permission(self) -> (r: JobBuilder)
        ensures
            r.staged().permissions == Option::Some(granted(self.staged().permissions, Scope::Contents, PermissionValue::Read)),
            (r.staged() == (Job { permissions: r.staged().permissions, ..self.staged() })),
    {
        let mut b = self;
        grant(&mut b.staged.permissions, Scope::Contents, PermissionValue::Read);
        b
    }

    /// Grants write access on `contents`.
    pub fn contents_write_permission(self) -> (r: JobBuilder)
        ensures
            r.staged().permissions == Option::Some(granted(self.staged().permissions, Scope::Contents, PermissionValue::Write)),
            (r.staged() == (Job { permissions: r.staged().permissions, ..self.staged() })),
    {
        let mut b = self;
        grant(&mut b.staged.permissions, Scope::Contents, PermissionValue::Write);
        b
    }

    /// Grants read access on `deployments`.
    pub fn deployments_read_permission(self) -> (r: JobBuilder)
        ensures
            r.staged().permissions == Option::Some(granted(self.staged().permissions, Scope::Deployments, PermissionValue::Read)),
            (r.staged() == (Job { permissions: r.staged().permissions, ..self.staged() })),
    {
        let mut b = self;
        grant(&mut b.staged.permissions, Scope::Deployments, PermissionValue::Read);
        b
    }

    /// Grants write access on `deployments`.
    pub fn deployments_write_permission(self) -> (r: JobBuilder)
        ensures
            r.staged().permissions == Option::Some(granted(self.staged().permissions, Scope::Deployments, PermissionValue::Write)),
            (r.staged() == (Job { permissions: r.staged().permissions, ..self.staged() })),
    {
        let mut b = self;
        grant(&mut b.staged.permissions, Scope::Deployments, PermissionValue::Write);
        b
    }

    /// Grants read access on `id`.
    pub fn id_read_permission(self) -> (r: JobBuilder)
        ensures
            r.staged().permissions == Option::Some(granted(self.staged().permissions, Scope::Id, PermissionValue::Read)),
            (r.staged() == (Job { permissions: r.staged().permissions, ..self.staged() })),
    {
        let mut b = self;
        grant(&mut b.staged.permissions, Scope::Id, PermissionValue::Read);
        b
    }

    /// Grants write access on `id`.
    pub fn id_write_permission(self) -> (r: JobBuilder)
        ensures
            r.staged().permissions == Option::Some(granted(self.staged().permissions, Scope::Id, PermissionValue::Write)),
            (r.staged() == (Job { permissions: r.staged().permissions, ..self.staged() })),
    {
        let mut b = self;
        grant(&mut b.staged.permissions, Scope::Id, PermissionValue::Write);
        b
    }

    /// Grants read access on `issues`.
    pub fn issues_read_permission(self) -> (r: JobBuilder)
        ensures
            r.staged().permissions == Option::Some(granted(self.staged().permissions, Scope::Issues, PermissionValue::Read)),
            (r.staged() == (Job { permissions: r.staged().permissions, ..self.staged() })),
    {
        let mut b = self;
        grant(&mut b.staged.permissions, Scope::Issues, PermissionValue::Read);
        b
    }

    /// Grants write access on `issues`.
    pub fn issues_write_permission(self) -> (r: JobBuilder)
        ensures
            r.staged().permissions == Option::Some(granted(self.staged().permissions, Scope::Issues, PermissionValue::Write)),
            (r.staged() == (Job { permissions: r.staged().permissions, ..self.staged() })),
    {
        let mut b = self;
        grant(&mut b.staged.permissions, Scope::Issues, PermissionValue::Write);
        b
    }

    /// Grants read access on `discussions`.
    pub fn discussions_read_permission(self) -> (r: JobBuilder)
        ensures
            r.staged().permissions == Option::Some(granted(self.staged().permissions, Scope::Discussions, PermissionValue::Read)),
            (r.staged() == (Job { permissions: r.staged().permissions, ..self.staged() })),
    {
        let mut b = self;
        grant(&mut b.staged.permissions, Scope::Discussions, PermissionValue::Read);
        b
    }

    /// Grants write access on `discussions`.
    pub fn discussions_write_permission(self) -> (r: JobBuilder)
        ensures
            r.staged().permissions == Option::Some(granted(self.staged().permissions, Scope::Discussions, PermissionValue::Write)),
            (r.staged() == (Job { permissions: r.staged().permissions, ..self.staged() })),
    {
        let mut b = self;
        grant(&mut b.staged.permissions, Scope::Discussions, PermissionValue::Write);
        b
    }

    /// Grants read access on `packages`.
    pub fn packages_read_permission(self) -> (r: JobBuilder)
        ensures
            r.staged().permissions == Option::Some(granted(self.staged().permissions, Scope::Packages, PermissionValue::Read)),
            (r.staged() == (Job { permissions: r.staged().permissions, ..self.staged() })),
    {
        let mut b = self;
        grant(&mut b.staged.permissions, Scope::Packages, PermissionValue::Read);
        b
    }

    /// Grants write access on `packages`.
    pub fn packages_write_permission(self) -> (r: JobBuilder)
        ensures
            r.staged().permissions == Option::Some(granted(self.staged().permissions, Scope::Packages, PermissionValue::Write)),
            (r.staged() == (Job { permissions: r.staged().permissions, ..self.staged() })),
    {
        let mut b = self;
        grant(&mut b.staged.permissions, Scope::Packages, PermissionValue::Write);
        b
    }

    /// Grants read access on `pages`.
    pub fn pages_read_permission(self) -> (r: JobBuilder)
        ensures
            r.staged().permissions == Option::Some(granted(self.staged().permissions, Scope::Pages, PermissionValue::Read)),
            (r.staged() == (Job { permissions: r.staged().permissions, ..self.staged() })),
    {
        let mut b = self;
        grant(&mut b.staged.permissions, Scope::Pages, PermissionValue::Read);
        b
    }

    /// Grants write access on `pages`.
    pub fn pages_write_permission(self) -> (r: JobBuilder)
        ensures
            r.staged().permissions == Option::Some(granted(self.staged().permissions, Scope::Pages, PermissionValue::Write)),
            (r.staged() == (Job { permissions: r.staged().permissions, ..self.staged() })),
    {
        let mut b = self;
        grant(&mut b.staged.permissions, Scope::Pages, PermissionValue::Write);
        b
    }

    /// Grants read access on `pull`.
    pub fn pull_read_permission(self) -> (r: JobBuilder)
        ensures
            r.staged().permissions == Option::Some(granted(self.staged().permissions, Scope::Pull, PermissionValue::Read)),
            (r.staged() == (Job { permissions: r.staged().permissions, ..self.staged() })),
    {
        let mut b = self;
        grant(&mut b.staged.permissions, Scope::Pull, PermissionValue::Read);
        b
    }

    /// Grants write access on `pull`.
    pub fn pull_write_permission(self) -> (r: JobBuilder)
        ensures
            r.staged().permissions == Option::Some(granted(self.staged().permissions, Scope::Pull, PermissionValue::Write)),
            (r.staged() == (Job { permissions: r.staged().permissions, ..self.staged() })),
    {
        let mut b = self;
        grant(&mut b.staged.permissions, Scope::Pull, PermissionValue::Write);
        b
    }

    /// Grants read access on `repository`.
    pub fn repository_read_permission(self) -> (r: JobBuilder)
        ensures
            r.staged().permissions == Option::Some(granted(self.staged().permissions, Scope::Repository, PermissionValue::Read)),
            (r.staged() == (Job { permissions: r.staged().permissions, ..self.staged() })),
    {
        let mut b = self;
        grant(&mut b.staged.permissions, Scope::Repository, PermissionValue::Read);
        b
    }

    /// Grants write access on `repository`.
    pub fn repository_write_permission(self) -> (r: JobBuilder)
        ensures
            r.staged().permissions == Option::Some(granted(self.staged().permissions, Scope::Repository, PermissionValue::Write)),
            (r.staged() == (Job { permissions: r.staged().permissions, ..self.staged() })),
    {
        let mut b = self;
        grant(&mut b.staged.permissions, Scope::Repository, PermissionValue::Write);
        b
    }

    /// Grants read access on `security`.
    pub fn security_read_permission(self) -> (r: JobBuilder)
        ensures
            r.staged().permissions == Option::Some(granted(self.staged().permissions, Scope::Security, PermissionValue::Read)),
            (r.staged() == (Job { permissions: r.staged().permissions, ..self.staged() })),
    {
        let mut b = self;
        grant(&mut b.staged.permissions, Scope::Security, PermissionValue::Read);
        b
    }

    /// Grants write access on `security`.
    pub fn security_write_permission(self) -> (r: JobBuilder)
        ensures
            r.staged().permissions == Option::Some(granted(self.staged().permissions, Scope::Security, PermissionValue::Write)),
            (r.staged() == (Job { permissions: r.staged().permissions, ..self.staged() })),
    {
        let mut b = self;
        grant(&mut b.staged.permissions, Scope::Security, PermissionValue::Write);
        b
    }

    /// Grants read access on `statuses`.
    pub fn statuses_read_permission(self) -> (r: JobBuilder)
        ensures
            r.staged().permissions == Option::Some(granted(self.staged().permissions, Scope::Statuses, PermissionValue::Read)),
            (r.staged() == (Job { permissions: r.staged().permissions, ..self.staged() })),
    {
        let mut b = self;
        grant(&mut b.staged.permissions, Scope::Statuses, PermissionValue::Read);
        b
    }

    /// Grants write access on `statuses`.
    pub fn statuses_write_permission(self) -> (r: JobBuilder)
        ensures
            r.staged().permissions == Option::Some(granted(self.staged().permissions, Scope::Statuses, PermissionValue::Write)),
            (r.staged() == (Job { permissions: r.staged().permissions, ..self.staged() })),
    {
        let mut b = self;
        grant(&mut b.staged.permissions, Scope::Statuses, PermissionValue::Write);
        b
    }

    /// Appends `value` to `needs`.
    pub fn needs(self, value: &str) -> (r: JobBuilder)
        ensures
            texts(r.staged().needs@) == texts(self.staged().needs@).push(value@),
            (r.staged() == (Job { needs: r.staged().needs, ..self.staged() })),
    {
        let mut b = self;
        push_text(&mut b.staged.needs, value);
        b
    }

    /// Sets `if_cond`.
    pub fn if_cond(self, value: &str) -> (r: JobBuilder)
        ensures
            r.staged().if_cond is Some,
            r.staged().if_cond->Some_0@ == value@,
            (r.staged() == (Job { if_cond: r.staged().if_cond, ..self.staged() })),
    {
        let mut b = self;
        b.staged.if_cond = Option::Some(value.to_owned());
        b
    }

    /// Sets `runs_on`.
    pub fn runs_on(self, value: &str) -> (r: JobBuilder)
        ensures
            r.staged().runs_on is Some,
            r.staged().runs_on->Some_0@ == value@,
            (r.staged() == (Job { runs_on: r.staged().runs_on, ..self.staged() })),
    {
        let mut b = self;
        b.staged.runs_on = Option::Some(value.to_owned());
        b
    }

    /// Sets `environment`.
    pub fn environment(self, value: Environment) -> (r: JobBuilder)
        ensures
            r.staged().environment == value,
            (r.staged() == (Job { environment: r.staged().environment, ..self.staged() })),
    {
        let mut b = self;
        b.staged.environment = value;
        b
    }

    /// Sets `concurrency`.
    pub fn concurrency(self, value: Concurrency) -> (r: JobBuilder)
        ensures
            r.staged().concurrency == value,
            (r.staged() == (Job { concurrency: r.staged().concurrency, ..self.staged() })),
    {
        let mut b = self;
        b.staged.concurrency = value;
        b
    }

    /// Sets `key` to `value` in `outputs`.
    pub fn output(self, key: &str, value: &str) -> (r: JobBuilder)
        requires
            self.staged().wf(),
        ensures
            r.staged().wf(),
            r.staged().outputs.view() == self.staged().outputs.view().insert(key@, r.staged().outputs.view()[key@]),
            r.staged().outputs.view()[key@]@ == value@,
            (r.staged() == (Job { outputs: r.staged().outputs, ..self.staged() })),
    {
        let mut b = self;
        b.staged.outputs.insert(key.to_owned(), value.to_owned());
        b
    }

    /// Sets `key` to `value` in `env`.
    pub fn env_var(self, key: &str, value: &str) -> (r: JobBuilder)
        requires
            self.staged().wf(),
        ensures
            r.staged().wf(),
            r.staged().env.view() == self.staged().env.view().insert(key@, r.staged().env.view()[key@]),
            r.staged().env.view()[key@]@ == value@,
            (r.staged() == (Job { env: r.staged().env, ..self.staged() })),
    {
        let mut b = self;
        b.staged.env.insert(key.to_owned(), value.to_owned());
        b
    }

    /// Sets `defaults`.
    pub fn defaults(self, value: Defaults) -> (r: JobBuilder)
        ensures
            r.staged().defaults == value,
            (r.staged() == (Job { defaults: r.staged().defaults, ..self.staged() })),
    {
        let mut b = self;
        b.staged.defaults = value;
        b
    }

    /// Appends `value` to `steps`.
    pub fn add_step(self, value: JobStep) -> (r: JobBuilder)
        ensures
            r.staged().steps@ == self.staged().steps@.push(value),
            (r.staged() == (Job { steps: r.staged().steps, ..self.staged() })),
    {
        let mut b = self;
        b.staged.steps.push(value);
        b
    }

    /// Sets `strategy`.
    pub fn strategy(self, value: Strategy) -> (r: JobBuilder)
        ensures
            r.staged().strategy == value,
            (r.staged() == (Job { strategy: r.staged().strategy, ..self.staged() })),
    {
        let mut b = self;
        b.staged.strategy = value;
        b
    }

    /// Sets `timeout_minutes`.
    pub fn timeout_minutes(self, value: Value) -> (r: JobBuilder)
        ensures
            r.staged().timeout_minutes == Option::Some(value),
            (r.staged() == (Job { timeout_minutes: r.staged().timeout_minutes, ..self.staged() })),
    {
        let mut b = self;
        b.staged.timeout_minutes = Option::Some(value);
        b
    }

    /// Sets `container`.
    pub fn container(self, value: Container) -> (r: JobBuilder)
        ensures
            r.staged().container == value,
            (r.staged() == (Job { container: r.staged().container, ..self.staged() })),
    {
        let mut b = self;
        b.staged.container = value;
        b
    }

    /// Sets `key` to `value` in `services`.
    pub fn service(self, key: &str, value: Container) -> (r: JobBuilder)
        requires
            self.staged().wf(),
        ensures
            r.staged().wf(),
            r.staged().services.view() == self.staged().services.view().insert(key@, value),
            (r.staged() == (Job { services: r.staged().services, ..self.staged() })),
    {
        let mut b = self;
        b.staged.services.insert(key.to_owned(), value);
        b
    }

    /// Sets `uses`.
    pub fn uses(self, value: Value) -> (r: JobBuilder)
        ensures
            r.staged().uses == Option::Some(value),
            (r.staged() == (Job { uses: r.staged().uses, ..self.staged() })),
    {
        let mut b = self;
        b.staged.uses = Option::Some(value);
        b
    }

    /// Sets `key` to `value` in `with`.
    pub fn with(self, key: &str, value: Value) -> (r: JobBuilder)
        requires
            self.staged().wf(),
        ensures
            r.staged().wf(),
            r.staged().with.view() == self.staged().with.view().insert(key@, value),
            (r.staged() == (Job { with: r.staged().with, ..self.staged() })),
    {
        let mut b = self;
        b.staged.with.insert(key.to_owned(), value);
        b
    }

    /// Sets `key` to `value` in `secrets`.
    pub fn secret(self, key: &str, value: &str) -> (r: JobBuilder)
        requires
            self.staged().wf(),
        ensures
            r.staged().wf(),
            r.staged().secrets.view() == self.staged().secrets.view().insert(key@, r.staged().secrets.view()[key@]),
            r.staged().secrets.view()[key@]@ == value@,
            (r.staged() == (Job { secrets: r.staged().secrets, ..self.staged() })),
    {
        let mut b = self;
        b.staged.secrets.insert(key.to_owned(), value.to_owned());
        b
    }

}

impl Job {
    /// `d` is the document of this value: the fields that are not empty,
    /// in declaration order under their written keys, each with its own document.
    pub open spec fn documented_by(&self, d: Doc) -> bool {
        &&& d is Fields
        &&& keys_of(d) == opt_key(self.name is Some, "name"@)
            + opt_key(self.id is Some, "id"@)
            + opt_key((self.permissions is Some && !self.permissions->Some_0.is_empty_spec()), "permissions"@)
            + opt_key(self.needs@.len() > 0, "needs"@)
            + opt_key(self.if_cond is Some, "if"@)
            + opt_key(self.runs_on is Some, "runs-on"@)
            + opt_key(!self.environment.is_empty_spec(), "environment"@)
            + opt_key(!self.concurrency.is_empty_spec(), "concurrency"@)
            + opt_key(self.outputs.keys().len() > 0, "outputs"@)
            + opt_key(self.env.keys().len() > 0, "env"@)
            + opt_key(!self.defaults.is_empty_spec(), "defaults"@)
            + opt_key(self.steps@.len() > 0, "steps"@)
            + opt_key(!self.strategy.is_empty_spec(), "strategy"@)
            + opt_key(self.timeout_minutes is Some, "timeout-minutes"@)
            + opt_key(!self.container.is_empty_spec(), "container"@)
            + opt_key(self.services.keys().len() > 0, "services"@)
            + opt_key(self.uses is Some, "uses"@)
            + opt_key(self.with.keys().len() > 0, "with"@)
            + opt_key(self.secrets.keys().len() > 0, "secrets"@)
        &&& self.documents_part_0(entries_of(d))
        &&& self.documents_part_1(entries_of(d))
        &&& self.documents_part_2(entries_of(d))
    }

    /// Each of `name`, `id`, `permissions`, `needs`, `if`, `runs-on`, `environment` that is not empty stands in `fs` with its document.
    pub open spec fn documents_part_0(&self, fs: Seq<(String, Doc)>) -> bool {
        &&& self.name is Some ==> holds_in(fs, "name"@, |c: Doc| c == Doc::Data(self.name->Some_0))
        &&& self.id is Some ==> holds_in(fs, "id"@, |c: Doc| c == Doc::Data(self.id->Some_0))
        &&& (self.permissions is Some && !self.permissions->Some_0.is_empty_spec()) ==> holds_in(fs, "permissions"@, |c: Doc| self.permissions->Some_0.documented_by(c))
        &&& self.needs@.len() > 0 ==> holds_in(fs, "needs"@, |c: Doc| is_texts(c, self.needs@))
        &&& self.if_cond is Some ==> holds_in(fs, "if"@, |c: Doc| is_text(c, self.if_cond->Some_0@))
        &&& self.runs_on is Some ==> holds_in(fs, "runs-on"@, |c: Doc| is_text(c, self.runs_on->Some_0@))
        &&& !self.environment.is_empty_spec() ==> holds_in(fs, "environment"@, |c: Doc| self.environment.documented_by(c))
    }

    proof fn lemma_part_0_kept(&self, a: Seq<(String, Doc)>, b: Seq<(String, Doc)>)
        requires
            self.documents_part_0(a),
            b.len() >= a.len(),
            forall|i: int| 0 <= i < a.len() ==> #[trigger] b[i] == a[i],
        ensures
            self.documents_part_0(b),
    {
        if self.name is Some {
            let i = choose|i: int| 0 <= i < a.len() && a[i].0@ == "name"@ && a[i].1 == Doc::Data(self.name->Some_0);
            assert(b[i] == a[i]);
        }
        if self.id is Some {
            let i = choose|i: int| 0 <= i < a.len() && a[i].0@ == "id"@ && a[i].1 == Doc::Data(self.id->Some_0);
            assert(b[i] == a[i]);
        }
        if (self.permissions is Some && !self.permissions->Some_0.is_empty_spec()) {
            let i = choose|i: int| 0 <= i < a.len() && a[i].0@ == "permissions"@ && self.permissions->Some_0.documented_by(a[i].1);
            assert(b[i] == a[i]);
        }
        if self.needs@.len() > 0 {
            let i = choose|i: int| 0 <= i < a.len() && a[i].0@ == "needs"@ && is_texts(a[i].1, self.needs@);
            assert(b[i] == a[i]);
        }
        if self.if_cond is Some {
            let i = choose|i: int| 0 <= i < a.len() && a[i].0@ == "if"@ && is_text(a[i].1, self.if_cond->Some_0@);
            assert(b[i] == a[i]);
        }
        if self.runs_on is Some {
            let i = choose|i: int| 0 <= i < a.len() && a[i].0@ == "runs-on"@ && is_text(a[i].1, self.runs_on->Some_0@);
            assert(b[i] == a[i]);
        }
        if !self.environment.is_empty_spec() {
            let i = choose|i: int| 0 <= i < a.len() && a[i].0@ == "environment"@ && self.environment.documented_by(a[i].1);
            assert(b[i] == a[i]);
        }
    }

    #[verifier::spinoff_prover]
    #[verifier::rlimit(100)]
    fn push_doc_fields_0(&self, fs: &mut Vec<(String, Doc)>)
        ensures
            entry_keys(final(fs)@) == entry_keys(old(fs)@) + opt_key(self.name is Some, "name"@)
                + opt_key(self.id is Some, "id"@)
                + opt_key((self.permissions is Some && !self.permissions->Some_0.is_empty_spec()), "permissions"@)
                + opt_key(self.needs@.len() > 0, "needs"@)
                + opt_key(self.if_cond is Some, "if"@)
                + opt_key(self.runs_on is Some, "runs-on"@)
                + opt_key(!self.environment.is_empty_spec(), "environment"@),
            final(fs)@.len() >= old(fs)@.len(),
            forall|i: int| 0 <= i < old(fs)@.len() ==> #[trigger] final(fs)@[i] == old(fs)@[i],
            self.documents_part_0(final(fs)@),
    {
        // Each value is built whether or not its field is written; `push_opt`
        // drops the ones that are left out.
        let ghost at0: int = fs@.len() as int;
        let w0 = self.name.is_some();
        let c0 = match &self.name { Option::Some(x) => Doc::Data(x.clone()), Option::None => Doc::Flag(false) };
        push_opt(fs, w0, "name", c0);
        let ghost at1: int = fs@.len() as int;
        let w1 = self.id.is_some();
        let c1 = match &self.id { Option::Some(x) => Doc::Data(x.clone()), Option::None => Doc::Flag(false) };
        push_opt(fs, w1, "id", c1);
        let ghost at2: int = fs@.len() as int;
        let w2 = match &self.permissions { Option::Some(x) => !x.is_empty(), Option::None => false };
        let c2 = match &self.permissions { Option::Some(x) => x.to_doc(), Option::None => Doc::Flag(false) };
        push_opt(fs, w2, "permissions", c2);
        let ghost at3: int = fs@.len() as int;
        let w3 = self.needs.len() > 0;
        let c3 = Doc::Texts(copy_texts(&self.needs));
        push_opt(fs, w3, "needs", c3);
        let ghost at4: int = fs@.len() as int;
        let w4 = self.if_cond.is_some();
        let c4 = match &self.if_cond { Option::Some(x) => Doc::Text(x.clone()), Option::None => Doc::Flag(false) };
        push_opt(fs, w4, "if", c4);
        let ghost at5: int = fs@.len() as int;
        let w5 = self.runs_on.is_some();
        let c5 = match &self.runs_on { Option::Some(x) => Doc::Text(x.clone()), Option::None => Doc::Flag(false) };
        push_opt(fs, w5, "runs-on", c5);
        let ghost at6: int = fs@.len() as int;
        let w6 = !self.environment.is_empty();
        let c6 = self.environment.to_doc();
        push_opt(fs, w6, "environment", c6);
        proof {
            if self.name is Some {
                assert(fs@[at0].0@ == "name"@);
                assert(fs@[at0].1 == Doc::Data(self.name->Some_0));
            }
            if self.id is Some {
                assert(fs@[at1].0@ == "id"@);
                assert(fs@[at1].1 == Doc::Data(self.id->Some_0));
            }
            if (self.permissions is Some && !self.permissions->Some_0.is_empty_spec()) {
                assert(fs@[at2].0@ == "permissions"@);
                assert(self.permissions->Some_0.documented_by(fs@[at2].1));
            }
            if self.needs@.len() > 0 {
                assert(fs@[at3].0@ == "needs"@);
                assert(is_texts(fs@[at3].1, self.needs@));
            }
            if self.if_cond is Some {
                assert(fs@[at4].0@ == "if"@);
                assert(is_text(fs@[at4].1, self.if_cond->Some_0@));
            }
            if self.runs_on is Some {
                assert(fs@[at5].0@ == "runs-on"@);
                assert(is_text(fs@[at5].1, self.runs_on->Some_0@));
            }
            if !self.environment.is_empty_spec() {
                assert(fs@[at6].0@ == "environment"@);
                assert(self.environment.documented_by(fs@[at6].1));
            }
        }
    }

    /// Each of `concurrency`, `outputs`, `env`, `defaults`, `steps`, `strategy`, `timeout-minutes` that is not empty stands in `fs` with its document.
    pub open spec fn documents_part_1(&self, fs: Seq<(String, Doc)>) -> bool {
        &&& !self.concurrency.is_empty_spec() ==> holds_in(fs, "concurrency"@, |c: Doc| self.concurrency.documented_by(c))
        &&& self.outputs.keys().len() > 0 ==> holds_in(fs, "outputs"@, |c: Doc| is_text_map(c, self.outputs))
        &&& self.env.keys().len() > 0 ==> holds_in(fs, "env"@, |c: Doc| is_text_map(c, self.env))
        &&& !self.defaults.is_empty_spec() ==> holds_in(fs, "defaults"@, |c: Doc| self.defaults.documented_by(c))
        &&& self.steps@.len() > 0 ==> holds_in(fs, "steps"@, |c: Doc| (c is Docs && c->Docs_0@.len() == self.steps@.len() && forall|j: int| 0 <= j < self.steps@.len() ==> #[trigger] self.steps@[j].documented_by(c->Docs_0@[j])))
        &&& !self.strategy.is_empty_spec() ==> holds_in(fs, "strategy"@, |c: Doc| self.strategy.documented_by(c))
        &&& self.timeout_minutes is Some ==> holds_in(fs, "timeout-minutes"@, |c: Doc| c == Doc::Data(self.timeout_minutes->Some_0))
    }

    proof fn lemma_part_1_kept(&self, a: Seq<(String, Doc)>, b: Seq<(String, Doc)>)
        requires
            self.documents_part_1(a),
            b.len() >= a.len(),
            forall|i: int| 0 <= i < a.len() ==> #[trigger] b[i] == a[i],
        ensures
            self.documents_part_1(b),
    {
        if !self.concurrency.is_empty_spec() {
            let i = choose|i: int| 0 <= i < a.len() && a[i].0@ == "concurrency"@ && self.concurrency.documented_by(a[i].1);
            assert(b[i] == a[i]);
        }
        if self.outputs.keys().len() > 0 {
            let i = choose|i: int| 0 <= i < a.len() && a[i].0@ == "outputs"@ && is_text_map(a[i].1, self.outputs);
            assert(b[i] == a[i]);
        }
        if self.env.keys().len() > 0 {
            let i = choose|i: int| 0 <= i < a.len() && a[i].0@ == "env"@ && is_text_map(a[i].1, self.env);
            assert(b[i] == a[i]);
        }
        if !self.defaults.is_empty_spec() {
            let i = choose|i: int| 0 <= i < a.len() && a[i].0@ == "defaults"@ && self.defaults.documented_by(a[i].1);
            assert(b[i] == a[i]);
        }
        if self.steps@.len() > 0 {
            let i = choose|i: int| 0 <= i < a.len() && a[i].0@ == "steps"@ && (a[i].1 is Docs && a[i].1->Docs_0@.len() == self.steps@.len() && forall|j: int| 0 <= j < self.steps@.len() ==> #[trigger] self.steps@[j].documented_by(a[i].1->Docs_0@[j]));
            assert(b[i] == a[i]);
        }
        if !self.strategy.is_empty_spec() {
            let i = choose|i: int| 0 <= i < a.len() && a[i].0@ == "strategy"@ && self.strategy.documented_by(a[i].1);
            assert(b[i] == a[i]);
        }
        if self.timeout_minutes is Some {
            let i = choose|i: int| 0 <= i < a.len() && a[i].0@ == "timeout-minutes"@ && a[i].1 == Doc::Data(self.timeout_minutes->Some_0);
            assert(b[i] == a[i]);
        }
    }

    #[verifier::spinoff_prover]
    #[verifier::rlimit(100)]
    fn push_doc_fields_1(&self, fs: &mut Vec<(String, Doc)>)
        ensures
            entry_keys(final(fs)@) == entry_keys(old(fs)@) + opt_key(!self.concurrency.is_empty_spec(), "concurrency"@)
                + opt_key(self.outputs.keys().len() > 0, "outputs"@)
                + opt_key(self.env.keys().len() > 0, "env"@)
                + opt_key(!self.defaults.is_empty_spec(), "defaults"@)
                + opt_key(self.steps@.len() > 0, "steps"@)
                + opt_key(!self.strategy.is_empty_spec(), "strategy"@)
                + opt_key(self.timeout_minutes is Some, "timeout-minutes"@),
            final(fs)@.len() >= old(fs)@.len(),
            forall|i: int| 0 <= i < old(fs)@.len() ==> #[trigger] final(fs)@[i] == old(fs)@[i],
            self.documents_part_1(final(fs)@),
    {
        // Each value is built whether or not its field is written; `push_opt`
        // drops the ones that are left out.
        let ghost at0: int = fs@.len() as int;
        let w0 = !self.concurrency.is_empty();
        let c0 = self.concurrency.to_doc();
        push_opt(fs, w0, "concurrency", c0);
        let ghost at1: int = fs@.len() as int;
        let w1 = self.outputs.len() > 0;
        let c1 = text_map_doc(&self.outputs);
        push_opt(fs, w1, "outputs", c1);
        let ghost at2: int = fs@.len() as int;
        let w2 = self.env.len() > 0;
        let c2 = text_map_doc(&self.env);
        push_opt(fs, w2, "env", c2);
        let ghost at3: int = fs@.len() as int;
        let w3 = !self.defaults.is_empty();
        let c3 = self.defaults.to_doc();
        push_opt(fs, w3, "defaults", c3);
        let ghost at4: int = fs@.len() as int;
        let w4 = self.steps.len() > 0;
        let c4 = jobstep_list_doc(&self.steps);
        push_opt(fs, w4, "steps", c4);
        let ghost at5: int = fs@.len() as int;
        let w5 = !self.strategy.is_empty();
        let c5 = self.strategy.to_doc();
        push_opt(fs, w5, "strategy", c5);
        let ghost at6: int = fs@.len() as int;
        let w6 = self.timeout_minutes.is_some();
        let c6 = match &self.timeout_minutes { Option::Some(x) => Doc::Data(x.clone()), Option::None => Doc::Flag(false) };
        push_opt(fs, w6, "timeout-minutes", c6);
        proof {
            if !self.concurrency.is_empty_spec() {
                assert(fs@[at0].0@ == "concurrency"@);
                assert(self.concurrency.documented_by(fs@[at0].1));
            }
            if self.outputs.keys().len() > 0 {
                assert(fs@[at1].0@ == "outputs"@);
                assert(is_text_map(fs@[at1].1, self.outputs));
            }
            if self.env.keys().len() > 0 {
                assert(fs@[at2].0@ == "env"@);
                assert(is_text_map(fs@[at2].1, self.env));
            }
            if !self.defaults.is_empty_spec() {
                assert(fs@[at3].0@ == "defaults"@);
                assert(self.defaults.documented_by(fs@[at3].1));
            }
            if self.steps@.len() > 0 {
                assert(fs@[at4].0@ == "steps"@);
                assert((fs@[at4].1 is Docs && fs@[at4].1->Docs_0@.len() == self.steps@.len() && forall|j: int| 0 <= j < self.steps@.len() ==> #[trigger] self.steps@[j].documented_by(fs@[at4].1->Docs_0@[j])));
            }
            if !self.strategy.is_empty_spec() {
                assert(fs@[at5].0@ == "strategy"@);
                assert(self.strategy.documented_by(fs@[at5].1));
            }
            if self.timeout_minutes is Some {
                assert(fs@[at6].0@ == "timeout-minutes"@);
                assert(fs@[at6].1 == Doc::Data(self.timeout_minutes->Some_0));
            }
        }
    }

    /// Each of `container`, `services`, `uses`, `with`, `secrets` that is not empty stands in `fs` with its document.
    pub open spec fn documents_part_2(&self, fs: Seq<(String, Doc)>) -> bool {
        &&& !self.container.is_empty_spec() ==> holds_in(fs, "container"@, |c: Doc| self.container.documented_by(c))
        &&& self.services.keys().len() > 0 ==> holds_in(fs, "services"@, |c: Doc| (c is Fields && keys_of(c) == self.services.keys() && entries_of(c).len() == self.services.values().len() && forall|j: int| 0 <= j < entries_of(c).len() ==> #[trigger] self.services.values()[j].documented_by(entries_of(c)[j].1)))
        &&& self.uses is Some ==> holds_in(fs, "uses"@, |c: Doc| c == Doc::Data(self.uses->Some_0))
        &&& self.with.keys().len() > 0 ==> holds_in(fs, "with"@, |c: Doc| is_data_map(c, self.with))
        &&& self.secrets.keys().len() > 0 ==> holds_in(fs, "secrets"@, |c: Doc| is_text_map(c, self.secrets))
    }

    proof fn lemma_part_2_kept(&self, a: Seq<(String, Doc)>, b: Seq<(String, Doc)>)
        requires
            self.documents_part_2(a),
            b.len() >= a.len(),
            forall|i: int| 0 <= i < a.len() ==> #[trigger] b[i] == a[i],
        ensures
            self.documents_part_2(b),
    {
        if !self.container.is_empty_spec() {
            let i = choose|i: int| 0 <= i < a.len() && a[i].0@ == "container"@ && self.container.documented_by(a[i].1);
            assert(b[i] == a[i]);
        }
        if self.services.keys().len() > 0 {
            let i = choose|i: int| 0 <= i < a.len() && a[i].0@ == "services"@ && (a[i].1 is Fields && keys_of(a[i].1) == self.services.keys() && entries_of(a[i].1).len() == self.services.values().len() && forall|j: int| 0 <= j < entries_of(a[i].1).len() ==> #[trigger] self.services.values()[j].documented_by(entries_of(a[i].1)[j].1));
            assert(b[i] == a[i]);
        }
        if self.uses is Some {
            let i = choose|i: int| 0 <= i < a.len() && a[i].0@ == "uses"@ && a[i].1 == Doc::Data(self.uses->Some_0);
            assert(b[i] == a[i]);
        }
        if self.with.keys().len() > 0 {
            let i = choose|i: int| 0 <= i < a.len() && a[i].0@ == "with"@ && is_data_map(a[i].1, self.with);
            assert(b[i] == a[i]);
        }
        if self.secrets.keys().len() > 0 {
            let i = choose|i: int| 0 <= i < a.len() && a[i].0@ == "secrets"@ && is_text_map(a[i].1, self.secrets);
            assert(b[i] == a[i]);
        }
    }

    #[verifier::spinoff_prover]
    #[verifier::rlimit(100)]
    fn push_doc_fields_2(&self, fs: &mut Vec<(String, Doc)>)
        ensures
            entry_keys(final(fs)@) == entry_keys(old(fs)@) + opt_key(!self.container.is_empty_spec(), "container"@)
                + opt_key(self.services.keys().len() > 0, "services"@)
                + opt_key(self.uses is Some, "uses"@)
                + opt_key(self.with.keys().len() > 0, "with"@)
                + opt_key(self.secrets.keys().len() > 0, "secrets"@),
            final(fs)@.len() >= old(fs)@.len(),
            forall|i: int| 0 <= i < old(fs)@.len() ==> #[trigger] final(fs)@[i] == old(fs)@[i],
            self.documents_part_2(final(fs)@),
    {
        // Each value is built whether or not its field is written; `push_opt`
        // drops the ones that are left out.
        let ghost at0: int = fs@.len() as int;
        let w0 = !self.container.is_empty();
        let c0 = self.container.to_doc();
        push_opt(fs, w0, "container", c0);
        let ghost at1: int = fs@.len() as int;
        let w1 = self.services.len() > 0;
        let c1 = container_map_doc(&self.services);
        push_opt(fs, w1, "services", c1);
        let ghost at2: int = fs@.len() as int;
        let w2 = self.uses.is_some();
        let c2 = match &self.uses { Option::Some(x) => Doc::Data(x.clone()), Option::None => Doc::Flag(false) };
        push_opt(fs, w2, "uses", c2);
        let ghost at3: int = fs@.len() as int;
        let w3 = self.with.len() > 0;
        let c3 = data_map_doc(&self.with);
        push_opt(fs, w3, "with", c3);
        let ghost at4: int = fs@.len() as int;
        let w4 = self.secrets.len() > 0;
        let c4 = text_map_doc(&self.secrets);
        push_opt(fs, w4, "secrets", c4);
        proof {
            if !self.container.is_empty_spec() {
                assert(fs@[at0].0@ == "container"@);
                assert(self.container.documented_by(fs@[at0].1));
            }
            if self.services.keys().len() > 0 {
                assert(fs@[at1].0@ == "services"@);
                assert((fs@[at1].1 is Fields && keys_of(fs@[at1].1) == self.services.keys() && entries_of(fs@[at1].1).len() == self.services.values().len() && forall|j: int| 0 <= j < entries_of(fs@[at1].1).len() ==> #[trigger] self.services.values()[j].documented_by(entries_of(fs@[at1].1)[j].1)));
            }
            if self.uses is Some {
                assert(fs@[at2].0@ == "uses"@);
                assert(fs@[at2].1 == Doc::Data(self.uses->Some_0));
            }
            if self.with.keys().len() > 0 {
                assert(fs@[at3].0@ == "with"@);
                assert(is_data_map(fs@[at3].1, self.with));
            }
            if self.secrets.keys().len() > 0 {
                assert(fs@[at4].0@ == "secrets"@);
                assert(is_text_map(fs@[at4].1, self.secrets));
            }
        }
    }

    /// The document of this value.
    #[verifier::spinoff_prover]
    #[verifier::rlimit(100)]
    pub fn to_doc(&self) -> (r: Doc)
        ensures
            self.documented_by(r),
    {
        let mut fs: Vec<(String, Doc)> = Vec::new();
        assert(entry_keys(fs@) =~= Seq::<Seq<char>>::empty());
        let ghost before0 = fs@;
        self.push_doc_fields_0(&mut fs);
        assert(entry_keys(fs@) =~= opt_key(self.name is Some, "name"@)
            + opt_key(self.id is Some, "id"@)
            + opt_key((self.permissions is Some && !self.permissions->Some_0.is_empty_spec()), "permissions"@)
            + opt_key(self.needs@.len() > 0, "needs"@)
            + opt_key(self.if_cond is Some, "if"@)
            + opt_key(self.runs_on is Some, "runs-on"@)
            + opt_key(!self.environment.is_empty_spec(), "environment"@));
        let ghost before1 = fs@;
        self.push_doc_fields_1(&mut fs);
        let ghost before2 = fs@;
        self.push_doc_fields_2(&mut fs);
        proof {
            self.lemma_part_0_kept(before1, fs@);
            self.lemma_part_1_kept(before2, fs@);
        }
        Doc::Fields(fs)
    }
}

fn jobstep_list_doc(v: &Vec<JobStep>) -> (r: Doc)
    ensures
        r is Docs,
        r->Docs_0@.len() == v@.len(),
        forall|j: int| 0 <= j < v@.len() ==> #[trigger] v@[j].documented_by(r->Docs_0@[j]),
{
    let mut out: Vec<Doc> = Vec::new();
    let mut i: usize = 0;
    while i < v.len()
        invariant
            i <= v@.len(),
            out@.len() == i,
            forall|j: int| 0 <= j < i ==> #[trigger] v@[j].documented_by(out@[j]),
        decreases v.len() - i,
    {
        out.push(v[i].to_doc());
        i += 1;
    }
    Doc::Docs(out)
}

fn container_map_doc(m: &KeyedMap<Container>) -> (r: Doc)
    ensures
        r is Fields,
        keys_of(r) == m.keys(),
        entries_of(r).len() == m.values().len(),
        forall|j: int| 0 <= j < entries_of(r).len() ==> #[trigger] m.values()[j].documented_by(entries_of(r)[j].1),
{
    let mut fs: Vec<(String, Doc)> = Vec::new();
    let n = m.len();
    let mut i: usize = 0;
    while i < n
        invariant
            n == m.keys().len(),
            n == m.values().len(),
            i <= n,
            fs@.len() == i,
            forall|j: int| 0 <= j < i ==> (#[trigger] fs@[j]).0@ == m.keys()[j],
            forall|j: int| 0 <= j < i ==> #[trigger] m.values()[j].documented_by(fs@[j].1),
        decreases n - i,
    {
        let (k, v) = m.entry(i);
        fs.push((k.clone(), v.to_doc()));
        i += 1;
    }
    let r = Doc::Fields(fs);
    assert(keys_of(r) =~= m.keys());
    r
}

} // verus!
