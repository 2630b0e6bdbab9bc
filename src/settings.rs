//! Settings shared by workflows and jobs: defaults, concurrency, deployment
//! environment, containers and the job matrix.
use vstd::prelude::*;
use crate::keyed::KeyedMap;
use serde_yml::Value;
use crate::doc::{copy_values, data_map_doc, entries_of, entry_keys, holds_in, push_opt, is_data_map, is_datas, is_list_map, is_text, keys_of, list_map_doc, opt_key, Doc};

verus! {

/// The variants under `key` once `value` is appended to them; a key not
/// yet in the matrix starts with `value` alone.
pub open spec fn extended(matrix: Map<Seq<char>, Vec<Value>>, key: Seq<char>, value: Value) -> Seq<Value> {
    if matrix.contains_key(key) {
        matrix[key]@.push(value)
    } else {
        seq![value]
    }
}

/// Defaults for `run` steps.
#[derive(Debug, Clone)]
pub struct RunDefaults {
    pub shell: Option<String>,
    pub working_directory: Option<String>,
}

impl RunDefaults {
    /// The keyed fields are in order.
    pub open spec fn wf(&self) -> bool {
        true
    }

    /// Every field is at its starting value.
    pub open spec fn is_blank(&self) -> bool {
        self.shell is None
        && self.working_directory is None
    }

    /// No field would be written out.
    pub open spec fn is_empty_spec(&self) -> bool {
        self.shell is None
        && self.working_directory is None
    }

    /// Whether no field would be written out.
    pub fn is_empty(&self) -> (r: bool)
        ensures
            r == self.is_empty_spec(),
    {
        self.shell.is_none()
            && self.working_directory.is_none()
    }

    /// A value with every field at its starting value.
    pub fn new() -> (r: RunDefaults)
        ensures
            r.is_blank(),
            r.wf(),
    {
        RunDefaults {
            shell: Option::None,
            working_directory: Option::None,
        }
    }
}

impl Default for RunDefaults {
    fn default() -> (r: Self)
        ensures
            r.is_blank(),
    {
        RunDefaults::new()
    }
}

impl RunDefaults {
    /// `d` is the document of this value: the fields that are not empty,
    /// in declaration order under their written keys, each with its own document.
    pub open spec fn documented_by(&self, d: Doc) -> bool {
        &&& d is Fields
        &&& keys_of(d) == opt_key(self.shell is Some, "shell"@)
            + opt_key(self.working_directory is Some, "working-directory"@)
        &&& self.documents_part_0(entries_of(d))
    }

    /// Each of `shell`, `working-directory` that is not empty stands in `fs` with its document.
    pub open spec fn documents_part_0(&self, fs: Seq<(String, Doc)>) -> bool {
        &&& self.shell is Some ==> holds_in(fs, "shell"@, |c: Doc| is_text(c, self.shell->Some_0@))
        &&& self.working_directory is Some ==> holds_in(fs, "working-directory"@, |c: Doc| is_text(c, self.working_directory->Some_0@))
    }

    proof fn lemma_part_0_kept(&self, a: Seq<(String, Doc)>, b: Seq<(String, Doc)>)
        requires
            self.documents_part_0(a),
            b.len() >= a.len(),
            forall|i: int| 0 <= i < a.len() ==> #[trigger] b[i] == a[i],
        ensures
            self.documents_part_0(b),
    {
        if self.shell is Some {
            let i = choose|i: int| 0 <= i < a.len() && a[i].0@ == "shell"@ && is_text(a[i].1, self.shell->Some_0@);
            assert(b[i] == a[i]);
        }
        if self.working_directory is Some {
            let i = choose|i: int| 0 <= i < a.len() && a[i].0@ == "working-directory"@ && is_text(a[i].1, self.working_directory->Some_0@);
            assert(b[i] == a[i]);
        }
    }

    #[verifier::spinoff_prover]
    #[verifier::rlimit(100)]
    fn push_doc_fields_0(&self, fs: &mut Vec<(String, Doc)>)
        ensures
            entry_keys(final(fs)@) == entry_keys(old(fs)@) + opt_key(self.shell is Some, "shell"@)
                + opt_key(self.working_directory is Some, "working-directory"@),
            final(fs)@.len() >= old(fs)@.len(),
            forall|i: int| 0 <= i < old(fs)@.len() ==> #[trigger] final(fs)@[i] == old(fs)@[i],
            self.documents_part_0(final(fs)@),
    {
        // Each value is built whether or not its field is written; `push_opt`
        // drops the ones that are left out.
        let ghost at0: int = fs@.len() as int;
        let w0 = self.shell.is_some();
        let c0 = match &self.shell { Option::Some(x) => Doc::Text(x.clone()), Option::None => Doc::Flag(false) };
        push_opt(fs, w0, "shell", c0);
        let ghost at1: int = fs@.len() as int;
        let w1 = self.working_directory.is_some();
        let c1 = match &self.working_directory { Option::Some(x) => Doc::Text(x.clone()), Option::None => Doc::Flag(false) };
        push_opt(fs, w1, "working-directory", c1);
        proof {
            if self.shell is Some {
                assert(fs@[at0].0@ == "shell"@);
                assert(is_text(fs@[at0].1, self.shell->Some_0@));
            }
            if self.working_directory is Some {
                assert(fs@[at1].0@ == "working-directory"@);
                assert(is_text(fs@[at1].1, self.working_directory->Some_0@));
            }
        }
    }

    /// The document of this value.
    #[verifier::spinoff_prover]
    #[verifier::rlimit(100)]
    pub fn to_doc(&self) -> (r: Doc)
        ensures
            self.documented_by(r),
    {
        let mut fs: Vec<(String, Doc)> = Vec::new();
        assert(entry_keys(fs@) =~= Seq::<Seq<char>>::empty());
        let ghost before0 = fs@;
        self.push_doc_fields_0(&mut fs);
        assert(entry_keys(fs@) =~= opt_key(self.shell is Some, "shell"@)
            + opt_key(self.working_directory is Some, "working-directory"@));
        proof {
        }
        Doc::Fields(fs)
    }
}

/// Defaults that apply to every step.
#[derive(Debug, Clone)]
pub struct Defaults {
    pub run: RunDefaults,
}

impl Defaults {
    /// The keyed fields are in order.
    pub open spec fn wf(&self) -> bool {
        true
    }

    /// Every field is at its starting value.
    pub open spec fn is_blank(&self) -> bool {
        self.run.is_blank()
    }

    /// No field would be written out.
    pub open spec fn is_empty_spec(&self) -> bool {
        self.run.is_empty_spec()
    }

    /// Whether no field would be written out.
    pub fn is_empty(&self) -> (r: bool)
        ensures
            r == self.is_empty_spec(),
    {
        self.run.is_empty()
    }

    /// A value with every field at its starting value.
    pub fn new() -> (r: Defaults)
        ensures
            r.is_blank(),
            r.wf(),
    {
        Defaults {
            run: RunDefaults::new(),
        }
    }

    /// Starts a builder with every field at its starting value.
    pub fn builder() -> (r: DefaultsBuilder)
        ensures
            r.staged().is_blank(),
            r.staged().wf(),
    {
        DefaultsBuilder { staged: Defaults::new() }
    }
}

impl Default for Defaults {
    fn default() -> (r: Self)
        ensures
            r.is_blank(),
    {
        Defaults::new()
    }
}

/// Stages a [`Defaults`]: lists only grow at their end, keyed fields take
/// the last value set under a key, and `build` hands out the result.
pub struct DefaultsBuilder {
    staged: Defaults,
}

impl DefaultsBuilder {
    /// What `build` would hand out now.
    pub closed spec fn staged(&self) -> Defaults {
        self.staged
    }

    pub fn build(self) -> (r: Defaults)
        ensures
            r == self.staged(),
    {
        self.staged
    }

    /// Sets the default `shell` of `run` steps.
    pub fn shell(self, value: &str) -> (r: DefaultsBuilder)
        ensures
            r.staged().run.shell is Some,
            r.staged().run.shell->Some_0@ == value@,
            (r.staged().run == (RunDefaults { shell: r.staged().run.shell, ..self.staged().run })),
    {
        let mut b = self;
        b.staged.run.shell = Option::Some(value.to_owned());
        b
    }

    /// Sets the default `working_directory` of `run` steps.
    pub fn working_directory(self, value: &str) -> (r: DefaultsBuilder)
        ensures
            r.staged().run.working_directory is Some,
            r.staged().run.working_directory->Some_0@ == value@,
            (r.staged().run == (RunDefaults { working_directory: r.staged().run.working_directory, ..self.staged().run })),
    {
        let mut b = self;
        b.staged.run.working_directory = Option::Some(value.to_owned());
        b
    }

}

impl Defaults {
    /// `d` is the document of this value: the fields that are not empty,
    /// in declaration order under their written keys, each with its own document.
    pub open spec fn documented_by(&self, d: Doc) -> bool {
        &&& d is Fields
        &&& keys_of(d) == opt_key(!self.run.is_empty_spec(), "run"@)
        &&& self.documents_part_0(entries_of(d))
    }

    /// Each of `run` that is not empty stands in `fs` with its document.
    pub open spec fn documents_part_0(&self, fs: Seq<(String, Doc)>) -> bool {
        &&& !self.run.is_empty_spec() ==> holds_in(fs, "run"@, |c: Doc| self.run.documented_by(c))
    }

    proof fn lemma_part_0_kept(&self, a: Seq<(String, Doc)>, b: Seq<(String, Doc)>)
        requires
            self.documents_part_0(a),
            b.len() >= a.len(),
            forall|i: int| 0 <= i < a.len() ==> #[trigger] b[i] == a[i],
        ensures
            self.documents_part_0(b),
    {
        if !self.run.is_empty_spec() {
            let i = choose|i: int| 0 <= i < a.len() && a[i].0@ == "run"@ && self.run.documented_by(a[i].1);
            assert(b[i] == a[i]);
        }
    }

    #[verifier::spinoff_prover]
    #[verifier::rlimit(100)]
    fn push_doc_fields_0(&self, fs: &mut Vec<(String, Doc)>)
        ensures
            entry_keys(final(fs)@) == entry_keys(old(fs)@) + opt_key(!self.run.is_empty_spec(), "run"@),
            final(fs)@.len() >= old(fs)@.len(),
            forall|i: int| 0 <= i < old(fs)@.len() ==> #[trigger] final(fs)@[i] == old(fs)@[i],
            self.documents_part_0(final(fs)@),
    {
        // Each value is built whether or not its field is written; `push_opt`
        // drops the ones that are left out.
        let ghost at0: int = fs@.len() as int;
        let w0 = !self.run.is_empty();
        let c0 = self.run.to_doc();
        push_opt(fs, w0, "run", c0);
        proof {
            if !self.run.is_empty_spec() {
                assert(fs@[at0].0@ == "run"@);
                assert(self.run.documented_by(fs@[at0].1));
            }
        }
    }

    /// The document of this value.
    #[verifier::spinoff_prover]
    #[verifier::rlimit(100)]
    pub fn to_doc(&self) -> (r: Doc)
        ensures
            self.documented_by(r),
    {
        let mut fs: Vec<(String, Doc)> = Vec::new();
        assert(entry_keys(fs@) =~= Seq::<Seq<char>>::empty());
        let ghost before0 = fs@;
        self.push_doc_fields_0(&mut fs);
        assert(entry_keys(fs@) =~= opt_key(!self.run.is_empty_spec(), "run"@));
        proof {
        }
        Doc::Fields(fs)
    }
}

/// The concurrency group and its cancellation rule.
#[derive(Debug, Clone)]
pub struct Concurrency {
    pub group: Option<Value>,
    pub cancel_in_progress: Option<Value>,
}

impl Concurrency {
    /// The keyed fields are in order.
    pub open spec fn wf(&self) -> bool {
        true
    }

    /// Every field is at its starting value.
    pub open spec fn is_blank(&self) -> bool {
        self.group is None
        && self.cancel_in_progress is None
    }

    /// No field would be written out.
    pub open spec fn is_empty_spec(&self) -> bool {
        self.group is None
        && self.cancel_in_progress is None
    }

    /// Whether no field would be written out.
    pub fn is_empty(&self) -> (r: bool)
        ensures
            r == self.is_empty_spec(),
    {
        self.group.is_none()
            && self.cancel_in_progress.is_none()
    }

    /// A value with every field at its starting value.
    pub fn new() -> (r: Concurrency)
        ensures
            r.is_blank(),
            r.wf(),
    {
        Concurrency {
            group: Option::None,
            cancel_in_progress: Option::None,
        }
    }
}

impl Default for Concurrency {
    fn default() -> (r: Self)
        ensures
            r.is_blank(),
    {
        Concurrency::new()
    }
}

impl Concurrency {
    /// `d` is the document of this value: the fields that are not empty,
    /// in declaration order under their written keys, each with its own document.
    pub open spec fn documented_by(&self, d: Doc) -> bool {
        &&& d is Fields
        &&& keys_of(d) == opt_key(self.group is Some, "group"@)
            + opt_key(self.cancel_in_progress is Some, "cancel-in-progress"@)
        &&& self.documents_part_0(entries_of(d))
    }

    /// Each of `group`, `cancel-in-progress` that is not empty stands in `fs` with its document.
    pub open spec fn documents_part_0(&self, fs: Seq<(String, Doc)>) -> bool {
        &&& self.group is Some ==> holds_in(fs, "group"@, |c: Doc| c == Doc::Data(self.group->Some_0))
        &&& self.cancel_in_progress is Some ==> holds_in(fs, "cancel-in-progress"@, |c: Doc| c == Doc::Data(self.cancel_in_progress->Some_0))
    }

    proof fn lemma_part_0_kept(&self, a: Seq<(String, Doc)>, b: Seq<(String, Doc)>)
        requires
            self.documents_part_0(a),
            b.len() >= a.len(),
            forall|i: int| 0 <= i < a.len() ==> #[trigger] b[i] == a[i],
        ensures
            self.documents_part_0(b),
    {
        if self.group is Some {
            let i = choose|i: int| 0 <= i < a.len() && a[i].0@ == "group"@ && a[i].1 == Doc::Data(self.group->Some_0);
            assert(b[i] == a[i]);
        }
        if self.cancel_in_progress is Some {
            let i = choose|i: int| 0 <= i < a.len() && a[i].0@ == "cancel-in-progress"@ && a[i].1 == Doc::Data(self.cancel_in_progress->Some_0);
            assert(b[i] == a[i]);
        }
    }

    #[verifier::spinoff_prover]
    #[verifier::rlimit(100)]
    fn push_doc_fields_0(&self, fs: &mut Vec<(String, Doc)>)
        ensures
            entry_keys(final(fs)@) == entry_keys(old(fs)@) + opt_key(self.group is Some, "group"@)
                + opt_key(self.cancel_in_progress is Some, "cancel-in-progress"@),
            final(fs)@.len() >= old(fs)@.len(),
            forall|i: int| 0 <= i < old(fs)@.len() ==> #[trigger] final(fs)@[i] == old(fs)@[i],
            self.documents_part_0(final(fs)@),
    {
        // Each value is built whether or not its field is written; `push_opt`
        // drops the ones that are left out.
        let ghost at0: int = fs@.len() as int;
        let w0 = self.group.is_some();
        let c0 = match &self.group { Option::Some(x) => Doc::Data(x.clone()), Option::None => Doc::Flag(false) };
        push_opt(fs, w0, "group", c0);
        let ghost at1: int = fs@.len() as int;
        let w1 = self.cancel_in_progress.is_some();
        let c1 = match &self.cancel_in_progress { Option::Some(x) => Doc::Data(x.clone()), Option::None => Doc::Flag(false) };
        push_opt(fs, w1, "cancel-in-progress", c1);
        proof {
            if self.group is Some {
                assert(fs@[at0].0@ == "group"@);
                assert(fs@[at0].1 == Doc::Data(self.group->Some_0));
            }
            if self.cancel_in_progress is Some {
                assert(fs@[at1].0@ == "cancel-in-progress"@);
                assert(fs@[at1].1 == Doc::Data(self.cancel_in_progress->Some_0));
            }
        }
    }

    /// The document of this value.
    #[verifier::spinoff_prover]
    #[verifier::rlimit(100)]
    pub fn to_doc(&self) -> (r: Doc)
        ensures
            self.documented_by(r),
    {
        let mut fs: Vec<(String, Doc)> = Vec::new();
        assert(entry_keys(fs@) =~= Seq::<Seq<char>>::empty());
        let ghost before0 = fs@;
        self.push_doc_fields_0(&mut fs);
        assert(entry_keys(fs@) =~= opt_key(self.group is Some, "group"@)
            + opt_key(self.cancel_in_progress is Some, "cancel-in-progress"@));
        proof {
        }
        Doc::Fields(fs)
    }
}

/// The deployment environment of a job.
#[derive(Debug, Clone)]
pub struct Environment {
    pub name: Option<String>,
    pub url: Option<String>,
}

impl Environment {
    /// The keyed fields are in order.
    pub open spec fn wf(&self) -> bool {
        true
    }

    /// Every field is at its starting value.
    pub open spec fn is_blank(&self) -> bool {
        self.name is None
        && self.url is None
    }

    /// No field would be written out.
    pub open spec fn is_empty_spec(&self) -> bool {
        self.name is None
        && self.url is None
    }

    /// Whether no field would be written out.
    pub fn is_empty(&self) -> (r: bool)
        ensures
            r == self.is_empty_spec(),
    {
        self.name.is_none()
            && self.url.is_none()
    }

    /// A value with every field at its starting value.
    pub fn new() -> (r: Environment)
        ensures
            r.is_blank(),
            r.wf(),
    {
        Environment {
            name: Option::None,
            url: Option::None,
        }
    }

    /// Starts a builder with every field at its starting value.
    pub fn builder() -> (r: EnvironmentBuilder)
        ensures
            r.staged().is_blank(),
            r.staged().wf(),
    {
        EnvironmentBuilder { staged: Environment::new() }
    }
}

impl Default for Environment {
    fn default() -> (r: Self)
        ensures
            r.is_blank(),
    {
        Environment::new()
    }
}

/// Stages a [`Environment`]: lists only grow at their end, keyed fields take
/// the last value set under a key, and `build` hands out the result.
pub struct EnvironmentBuilder {
    staged: Environment,
}

impl EnvironmentBuilder {
    /// What `build` would hand out now.
    pub closed spec fn staged(&self) -> Environment {
        self.staged
    }

    pub fn build(self) -> (r: Environment)
        ensures
            r == self.staged(),
    {
        self.staged
    }

    /// Sets `name`.
    pub fn name(self, value: &str) -> (r: EnvironmentBuilder)
        ensures
            r.staged().name is Some,
            r.staged().name->Some_0@ == value@,
            (r.staged() == (Environment { name: r.staged().name, ..self.staged() })),
    {
        let mut b = self;
        b.staged.name = Option::Some(value.to_owned());
        b
    }

    /// Sets `url`.
    pub fn url(self, value: &str) -> (r: EnvironmentBuilder)
        ensures
            r.staged().url is Some,
            r.staged().url->Some_0@ == value@,
            (r.staged() == (Environment { url: r.staged().url, ..self.staged() })),
    {
        let mut b = self;
        b.staged.url = Option::Some(value.to_owned());
        b
    }

}

impl Environment {
    /// `d` is the document of this value: the fields that are not empty,
    /// in declaration order under their written keys, each with its own document.
    pub open spec fn documented_by(&self, d: Doc) -> bool {
        &&& d is Fields
        &&& keys_of(d) == opt_key(self.name is Some, "name"@)
            + opt_key(self.url is Some, "url"@)
        &&& self.documents_part_0(entries_of(d))
    }

    /// Each of `name`, `url` that is not empty stands in `fs` with its document.
    pub open spec fn documents_part_0(&self, fs: Seq<(String, Doc)>) -> bool {
        &&& self.name is Some ==> holds_in(fs, "name"@, |c: Doc| is_text(c, self.name->Some_0@))
        &&& self.url is Some ==> holds_in(fs, "url"@, |c: Doc| is_text(c, self.url->Some_0@))
    }

    proof fn lemma_part_0_kept(&self, a: Seq<(String, Doc)>, b: Seq<(String, Doc)>)
        requires
            self.documents_part_0(a),
            b.len() >= a.len(),
            forall|i: int| 0 <= i < a.len() ==> #[trigger] b[i] == a[i],
        ensures
            self.documents_part_0(b),
    {
        if self.name is Some {
            let i = choose|i: int| 0 <= i < a.len() && a[i].0@ == "name"@ && is_text(a[i].1, self.name->Some_0@);
            assert(b[i] == a[i]);
        }
        if self.url is Some {
            let i = choose|i: int| 0 <= i < a.len() && a[i].0@ == "url"@ && is_text(a[i].1, self.url->Some_0@);
            assert(b[i] == a[i]);
        }
    }

    #[verifier::spinoff_prover]
    #[verifier::rlimit(100)]
    fn push_doc_fields_0(&self, fs: &mut Vec<(String, Doc)>)
        ensures
            entry_keys(final(fs)@) == entry_keys(old(fs)@) + opt_key(self.name is Some, "name"@)
                + opt_key(self.url is Some, "url"@),
            final(fs)@.len() >= old(fs)@.len(),
            forall|i: int| 0 <= i < old(fs)@.len() ==> #[trigger] final(fs)@[i] == old(fs)@[i],
            self.documents_part_0(final(fs)@),
    {
        // Each value is built whether or not its field is written; `push_opt`
        // drops the ones that are left out.
        let ghost at0: int = fs@.len() as int;
        let w0 = self.name.is_some();
        let c0 = match &self.name { Option::Some(x) => Doc::Text(x.clone()), Option::None => Doc::Flag(false) };
        push_opt(fs, w0, "name", c0);
        let ghost at1: int = fs@.len() as int;
        let w1 = self.url.is_some();
        let c1 = match &self.url { Option::Some(x) => Doc::Text(x.clone()), Option::None => Doc::Flag(false) };
        push_opt(fs, w1, "url", c1);
        proof {
            if self.name is Some {
                assert(fs@[at0].0@ == "name"@);
                assert(is_text(fs@[at0].1, self.name->Some_0@));
            }
            if self.url is Some {
                assert(fs@[at1].0@ == "url"@);
                assert(is_text(fs@[at1].1, self.url->Some_0@));
            }
        }
    }

    /// The document of this value.
    #[verifier::spinoff_prover]
    #[verifier::rlimit(100)]
    pub fn to_doc(&self) -> (r: Doc)
        ensures
            self.documented_by(r),
    {
        let mut fs: Vec<(String, Doc)> = Vec::new();
        assert(entry_keys(fs@) =~= Seq::<Seq<char>>::empty());
        let ghost before0 = fs@;
        self.push_doc_fields_0(&mut fs);
        assert(entry_keys(fs@) =~= opt_key(self.name is Some, "name"@)
            + opt_key(self.url is Some, "url"@));
        proof {
        }
        Doc::Fields(fs)
    }
}

/// Registry credentials of a container.
#[derive(Debug, Clone)]
pub struct Credentials {
    pub username: Option<String>,
    pub password: Option<String>,
}

impl Credentials {
    /// The keyed fields are in order.
    pub open spec fn wf(&self) -> bool {
        true
    }

    /// Every field is at its starting value.
    pub open spec fn is_blank(&self) -> bool {
        self.username is None
        && self.password is None
    }

    /// No field would be written out.
    pub open spec fn is_empty_spec(&self) -> bool {
        self.username is None
        && self.password is None
    }

    /// Whether no field would be written out.
    pub fn is_empty(&self) -> (r: bool)
        ensures
            r == self.is_empty_spec(),
    {
        self.username.is_none()
            && self.password.is_none()
    }

    /// A value with every field at its starting value.
    pub fn new() -> (r: Credentials)
        ensures
            r.is_blank(),
            r.wf(),
    {
        Credentials {
            username: Option::None,
            password: Option::None,
        }
    }

    /// Starts a builder with every field at its starting value.
    pub fn builder() -> (r: CredentialsBuilder)
        ensures
            r.staged().is_blank(),
            r.staged().wf(),
    {
        CredentialsBuilder { staged: Credentials::new() }
    }
}

impl Default for Credentials {
    fn default() -> (r: Self)
        ensures
            r.is_blank(),
    {
        Credentials::new()
    }
}

/// Stages a [`Credentials`]: lists only grow at their end, keyed fields take
/// the last value set under a key, and `build` hands out the result.
pub struct CredentialsBuilder {
    staged: Credentials,
}

impl CredentialsBuilder {
    /// What `build` would hand out now.
    pub closed spec fn staged(&self) -> Credentials {
        self.staged
    }

    pub fn build(self) -> (r: Credentials)
        ensures
            r == self.staged(),
    {
        self.staged
    }

    /// Sets `username`.
    pub fn username(self, value: &str) -> (r: CredentialsBuilder)
        ensures
            r.staged().username is Some,
            r.staged().username->Some_0@ == value@,
            (r.staged() == (Credentials { username: r.staged().username, ..self.staged() })),
    {
        let mut b = self;
        b.staged.username = Option::Some(value.to_owned());
        b
    }

    /// Sets `password`.
    pub fn password(self, value: &str) -> (r: CredentialsBuilder)
        ensures
            r.staged().password is Some,
            r.staged().password->Some_0@ == value@,
            (r.staged() == (Credentials { password: r.staged().password, ..self.staged() })),
    {
        let mut b = self;
        b.staged.password = Option::Some(value.to_owned());
        b
    }

}

impl Credentials {
    /// `d` is the document of this value: the fields that are not empty,
    /// in declaration order under their written keys, each with its own document.
    pub open spec fn documented_by(&self, d: Doc) -> bool {
        &&& d is Fields
        &&& keys_of(d) == opt_key(self.username is Some, "username"@)
            + opt_key(self.password is Some, "password"@)
        &&& self.documents_part_0(entries_of(d))
    }

    /// Each of `username`, `password` that is not empty stands in `fs` with its document.
    pub open spec fn documents_part_0(&self, fs: Seq<(String, Doc)>) -> bool {
        &&& self.username is Some ==> holds_in(fs, "username"@, |c: Doc| is_text(c, self.username->Some_0@))
        &&& self.password is Some ==> holds_in(fs, "password"@, |c: Doc| is_text(c, self.password->Some_0@))
    }

    proof fn lemma_part_0_kept(&self, a: Seq<(String, Doc)>, b: Seq<(String, Doc)>)
        requires
            self.documents_part_0(a),
            b.len() >= a.len(),
            forall|i: int| 0 <= i < a.len() ==> #[trigger] b[i] == a[i],
        ensures
            self.documents_part_0(b),
    {
        if self.username is Some {
            let i = choose|i: int| 0 <= i < a.len() && a[i].0@ == "username"@ && is_text(a[i].1, self.username->Some_0@);
            assert(b[i] == a[i]);
        }
        if self.password is Some {
            let i = choose|i: int| 0 <= i < a.len() && a[i].0@ == "password"@ && is_text(a[i].1, self.password->Some_0@);
            assert(b[i] == a[i]);
        }
    }

    #[verifier::spinoff_prover]
    #[verifier::rlimit(100)]
    fn push_doc_fields_0(&self, fs: &mut Vec<(String, Doc)>)
        ensures
            entry_keys(final(fs)@) == entry_keys(old(fs)@) + opt_key(self.username is Some, "username"@)
                + opt_key(self.password is Some, "password"@),
            final(fs)@.len() >= old(fs)@.len(),
            forall|i: int| 0 <= i < old(fs)@.len() ==> #[trigger] final(fs)@[i] == old(fs)@[i],
            self.documents_part_0(final(fs)@),
    {
        // Each value is built whether or not its field is written; `push_opt`
        // drops the ones that are left out.
        let ghost at0: int = fs@.len() as int;
        let w0 = self.username.is_some();
        let c0 = match &self.username { Option::Some(x) => Doc::Text(x.clone()), Option::None => Doc::Flag(false) };
        push_opt(fs, w0, "username", c0);
        let ghost at1: int = fs@.len() as int;
        let w1 = self.password.is_some();
        let c1 = match &self.password { Option::Some(x) => Doc::Text(x.clone()), Option::None => Doc::Flag(false) };
        push_opt(fs, w1, "password", c1);
        proof {
            if self.username is Some {
                assert(fs@[at0].0@ == "username"@);
                assert(is_text(fs@[at0].1, self.username->Some_0@));
            }
            if self.password is Some {
                assert(fs@[at1].0@ == "password"@);
                assert(is_text(fs@[at1].1, self.password->Some_0@));
            }
        }
    }

    /// The document of this value.
    #[verifier::spinoff_prover]
    #[verifier::rlimit(100)]
    pub fn to_doc(&self) -> (r: Doc)
        ensures
            self.documented_by(r),
    {
        let mut fs: Vec<(String, Doc)> = Vec::new();
        assert(entry_keys(fs@) =~= Seq::<Seq<char>>::empty());
        let ghost before0 = fs@;
        self.push_doc_fields_0(&mut fs);
        assert(entry_keys(fs@) =~= opt_key(self.username is Some, "username"@)
            + opt_key(self.password is Some, "password"@));
        proof {
        }
        Doc::Fields(fs)
    }
}

/// The container a job or a service runs in.
#[derive(Debug, Clone)]
pub struct Container {
    pub image: Option<Value>,
    pub credentials: Credentials,
    pub env: KeyedMap<Value>,
    pub ports: Vec<Value>,
    pub volumes: Vec<Value>,
    pub options: Vec<Value>,
}

impl Container {
    /// The keyed fields are in order.
    pub open spec fn wf(&self) -> bool {
        self.env.wf()
    }

    /// Every field is at its starting value.
    pub open spec fn is_blank(&self) -> bool {
        self.image is None
        && self.credentials.is_blank()
        && self.env.keys().len() == 0
        && self.ports@.len() == 0
        && self.volumes@.len() == 0
        && self.options@.len() == 0
    }

    /// No field would be written out.
    pub open spec fn is_empty_spec(&self) -> bool {
        self.image is None
        && self.credentials.is_empty_spec()
        && self.env.keys().len() == 0
        && self.ports@.len() == 0
        && self.volumes@.len() == 0
        && self.options@.len() == 0
    }

    /// Whether no field would be written out.
    pub fn is_empty(&self) -> (r: bool)
        ensures
            r == self.is_empty_spec(),
    {
        self.image.is_none()
            && self.credentials.is_empty()
            && self.env.len() == 0
            && self.ports.len() == 0
            && self.volumes.len() == 0
            && self.options.len() == 0
    }

    /// A value with every field at its starting value.
    pub fn new() -> (r: Container)
        ensures
            r.is_blank(),
            r.wf(),
    {
        Container {
            image: Option::None,
            credentials: Credentials::new(),
            env: KeyedMap::new(),
            ports: Vec::new(),
            volumes: Vec::new(),
            options: Vec::new(),
        }
    }

    /// Starts a builder with every field at its starting value.
    pub fn builder() -> (r: ContainerBuilder)
        ensures
            r.staged().is_blank(),
            r.staged().wf(),
    {
        ContainerBuilder { staged: Container::new() }
    }
}

impl Default for Container {
    fn default() -> (r: Self)
        ensures
            r.is_blank(),
    {
        Container::new()
    }
}

/// Stages a [`Container`]: lists only grow at their end, keyed fields take
/// the last value set under a key, and `build` hands out the result.
pub struct ContainerBuilder {
    staged: Container,
}

impl ContainerBuilder {
    /// What `build` would hand out now.
    pub closed spec fn staged(&self) -> Container {
        self.staged
    }

    pub fn build(self) -> (r: Container)
        ensures
            r == self.staged(),
    {
        self.staged
    }

    /// Sets `image`.
    pub fn image(self, value: Value) -> (r: ContainerBuilder)
        ensures
            r.staged().image == Option::Some(value),
            (r.staged() == (Container { image: r.staged().image, ..self.staged() })),
    {
        let mut b = self;
        b.staged.image = Option::Some(value);
        b
    }

    /// Sets `credentials`.
    pub fn credentials(self, value: Credentials) -> (r: ContainerBuilder)
        ensures
            r.staged().credentials == value,
            (r.staged() == (Container { credentials: r.staged().credentials, ..self.staged() })),
    {
        let mut b = self;
        b.staged.credentials = value;
        b
    }

    /// Sets `key` to `value` in `env`.
    pub fn env_var(self, key: &str, value: Value) -> (r: ContainerBuilder)
        requires
            self.staged().wf(),
        ensures
            r.staged().wf(),
            r.staged().env.view() == self.staged().env.view().insert(key@, value),
            (r.staged() == (Container { env: r.staged().env, ..self.staged() })),
    {
        let mut b = self;
        b.staged.env.insert(key.to_owned(), value);
        b
    }

    /// Appends `value` to `ports`.
    pub fn port(self, value: Value) -> (r: ContainerBuilder)
        ensures
            r.staged().ports@ == self.staged().ports@.push(value),
            (r.staged() == (Container { ports: r.staged().ports, ..self.staged() })),
    {
        let mut b = self;
        b.staged.ports.push(value);
        b
    }

    /// Appends `value` to `volumes`.
    pub fn volume(self, value: Value) -> (r: ContainerBuilder)
        ensures
            r.staged().volumes@ == self.staged().volumes@.push(value),
            (r.staged() == (Container { volumes: r.staged().volumes, ..self.staged() })),
    {
        let mut b = self;
        b.staged.volumes.push(value);
        b
    }

    /// Appends `value` to `options`.
    pub fn option(self, value: Value) -> (r: ContainerBuilder)
        ensures
            r.staged().options@ == self.staged().options@.push(value),
            (r.staged() == (Container { options: r.staged().options, ..self.staged() })),
    {
        let mut b = self;
        b.staged.options.push(value);
        b
    }

}

impl Container {
    /// `d` is the document of this value: the fields that are not empty,
    /// in declaration order under their written keys, each with its own document.
    pub open spec fn documented_by(&self, d: Doc) -> bool {
        &&& d is Fields
        &&& keys_of(d) == opt_key(self.image is Some, "image"@)
            + opt_key(!self.credentials.is_empty_spec(), "credentials"@)
            + opt_key(self.env.keys().len() > 0, "env"@)
            + opt_key(self.ports@.len() > 0, "ports"@)
            + opt_key(self.volumes@.len() > 0, "volumes"@)
            + opt_key(self.options@.len() > 0, "options"@)
        &&& self.documents_part_0(entries_of(d))
    }

    /// Each of `image`, `credentials`, `env`, `ports`, `volumes`, `options` that is not empty stands in `fs` with its document.
    pub open spec fn documents_part_0(&self, fs: Seq<(String, Doc)>) -> bool {
        &&& self.image is Some ==> holds_in(fs, "image"@, |c: Doc| c == Doc::Data(self.image->Some_0))
        &&& !self.credentials.is_empty_spec() ==> holds_in(fs, "credentials"@, |c: Doc| self.credentials.documented_by(c))
        &&& self.env.keys().len() > 0 ==> holds_in(fs, "env"@, |c: Doc| is_data_map(c, self.env))
        &&& self.ports@.len() > 0 ==> holds_in(fs, "ports"@, |c: Doc| is_datas(c, self.ports@))
        &&& self.volumes@.len() > 0 ==> holds_in(fs, "volumes"@, |c: Doc| is_datas(c, self.volumes@))
        &&& self.options@.len() > 0 ==> holds_in(fs, "options"@, |c: Doc| is_datas(c, self.options@))
    }

    proof fn lemma_part_0_kept(&self, a: Seq<(String, Doc)>, b: Seq<(String, Doc)>)
        requires
            self.documents_part_0(a),
            b.len() >= a.len(),
            forall|i: int| 0 <= i < a.len() ==> #[trigger] b[i] == a[i],
        ensures
            self.documents_part_0(b),
    {
        if self.image is Some {
            let i = choose|i: int| 0 <= i < a.len() && a[i].0@ == "image"@ && a[i].1 == Doc::Data(self.image->Some_0);
            assert(b[i] == a[i]);
        }
        if !self.credentials.is_empty_spec() {
            let i = choose|i: int| 0 <= i < a.len() && a[i].0@ == "credentials"@ && self.credentials.documented_by(a[i].1);
            assert(b[i] == a[i]);
        }
        if self.env.keys().len() > 0 {
            let i = choose|i: int| 0 <= i < a.len() && a[i].0@ == "env"@ && is_data_map(a[i].1, self.env);
            assert(b[i] == a[i]);
        }
        if self.ports@.len() > 0 {
            let i = choose|i: int| 0 <= i < a.len() && a[i].0@ == "ports"@ && is_datas(a[i].1, self.ports@);
            assert(b[i] == a[i]);
        }
        if self.volumes@.len() > 0 {
            let i = choose|i: int| 0 <= i < a.len() && a[i].0@ == "volumes"@ && is_datas(a[i].1, self.volumes@);
            assert(b[i] == a[i]);
        }
        if self.options@.len() > 0 {
            let i = choose|i: int| 0 <= i < a.len() && a[i].0@ == "options"@ && is_datas(a[i].1, self.options@);
            assert(b[i] == a[i]);
        }
    }

    #[verifier::spinoff_prover]
    #[verifier::rlimit(100)]
    fn push_doc_fields_0(&self, fs: &mut Vec<(String, Doc)>)
        ensures
            entry_keys(final(fs)@) == entry_keys(old(fs)@) + opt_key(self.image is Some, "image"@)
                + opt_key(!self.credentials.is_empty_spec(), "credentials"@)
                + opt_key(self.env.keys().len() > 0, "env"@)
                + opt_key(self.ports@.len() > 0, "ports"@)
                + opt_key(self.volumes@.len() > 0, "volumes"@)
                + opt_key(self.options@.len() > 0, "options"@),
            final(fs)@.len() >= old(fs)@.len(),
            forall|i: int| 0 <= i < old(fs)@.len() ==> #[trigger] final(fs)@[i] == old(fs)@[i],
            self.documents_part_0(final(fs)@),
    {
        // Each value is built whether or not its field is written; `push_opt`
        // drops the ones that are left out.
        let ghost at0: int = fs@.len() as int;
        let w0 = self.image.is_some();
        let c0 = match &self.image { Option::Some(x) => Doc::Data(x.clone()), Option::None => Doc::Flag(false) };
        push_opt(fs, w0, "image", c0);
        let ghost at1: int = fs@.len() as int;
        let w1 = !self.credentials.is_empty();
        let c1 = self.credentials.to_doc();
        push_opt(fs, w1, "credentials", c1);
        let ghost at2: int = fs@.len() as int;
        let w2 = self.env.len() > 0;
        let c2 = data_map_doc(&self.env);
        push_opt(fs, w2, "env", c2);
        let ghost at3: int = fs@.len() as int;
        let w3 = self.ports.len() > 0;
        let c3 = Doc::Datas(copy_values(&self.ports));
        push_opt(fs, w3, "ports", c3);
        let ghost at4: int = fs@.len() as int;
        let w4 = self.volumes.len() > 0;
        let c4 = Doc::Datas(copy_values(&self.volumes));
        push_opt(fs, w4, "volumes", c4);
        let ghost at5: int = fs@.len() as int;
        let w5 = self.options.len() > 0;
        let c5 = Doc::Datas(copy_values(&self.options));
        push_opt(fs, w5, "options", c5);
        proof {
            if self.image is Some {
                assert(fs@[at0].0@ == "image"@);
                assert(fs@[at0].1 == Doc::Data(self.image->Some_0));
            }
            if !self.credentials.is_empty_spec() {
                assert(fs@[at1].0@ == "credentials"@);
                assert(self.credentials.documented_by(fs@[at1].1));
            }
            if self.env.keys().len() > 0 {
                assert(fs@[at2].0@ == "env"@);
                assert(is_data_map(fs@[at2].1, self.env));
            }
            if self.ports@.len() > 0 {
                assert(fs@[at3].0@ == "ports"@);
                assert(is_datas(fs@[at3].1, self.ports@));
            }
            if self.volumes@.len() > 0 {
                assert(fs@[at4].0@ == "volumes"@);
                assert(is_datas(fs@[at4].1, self.volumes@));
            }
            if self.options@.len() > 0 {
                assert(fs@[at5].0@ == "options"@);
                assert(is_datas(fs@[at5].1, self.options@));
            }
        }
    }

    /// The document of this value.
    #[verifier::spinoff_prover]
    #[verifier::rlimit(100)]
    pub fn to_doc(&self) -> (r: Doc)
        ensures
            self.documented_by(r),
    {
        let mut fs: Vec<(String, Doc)> = Vec::new();
        assert(entry_keys(fs@) =~= Seq::<Seq<char>>::empty());
        let ghost before0 = fs@;
        self.push_doc_fields_0(&mut fs);
        assert(entry_keys(fs@) =~= opt_key(self.image is Some, "image"@)
            + opt_key(!self.credentials.is_empty_spec(), "credentials"@)
            + opt_key(self.env.keys().len() > 0, "env"@)
            + opt_key(self.ports@.len() > 0, "ports"@)
            + opt_key(self.volumes@.len() > 0, "volumes"@)
            + opt_key(self.options@.len() > 0, "options"@));
        proof {
        }
        Doc::Fields(fs)
    }
}

/// The matrix a job fans out over.
#[derive(Debug, Clone)]
pub struct Strategy {
    pub matrix: KeyedMap<Vec<Value>>,
    pub fail_fast: Option<Value>,
    pub max_parallel: Option<Value>,
}

impl Strategy {
    /// The keyed fields are in order.
    pub open spec fn wf(&self) -> bool {
        self.matrix.wf()
    }

    /// Every field is at its starting value.
    pub open spec fn is_blank(&self) -> bool {
        self.matrix.keys().len() == 0
        && self.fail_fast is None
        && self.max_parallel is None
    }

    /// No field would be written out.
    pub open spec fn is_empty_spec(&self) -> bool {
        self.matrix.keys().len() == 0
        && self.fail_fast is None
        && self.max_parallel is None
    }

    /// Whether no field would be written out.
    pub fn is_empty(&self) -> (r: bool)
        ensures
            r == self.is_empty_spec(),
    {
        self.matrix.len() == 0
            && self.fail_fast.is_none()
            && self.max_parallel.is_none()
    }

    /// A value with every field at its starting value.
    pub fn new() -> (r: Strategy)
        ensures
            r.is_blank(),
            r.wf(),
    {
        Strategy {
            matrix: KeyedMap::new(),
            fail_fast: Option::None,
            max_parallel: Option::None,
        }
    }

    /// Starts a builder with every field at its starting value.
    pub fn builder() -> (r: StrategyBuilder)
        ensures
            r.staged().is_blank(),
            r.staged().wf(),
    {
        StrategyBuilder { staged: Strategy::new() }
    }
}

impl Default for Strategy {
    fn default() -> (r: Self)
        ensures
            r.is_blank(),
    {
        Strategy::new()
    }
}

/// Stages a [`Strategy`]: lists only grow at their end, keyed fields take
/// the last value set under a key, and `build` hands out the result.
pub struct StrategyBuilder {
    staged: Strategy,
}

impl StrategyBuilder {
    /// What `build` would hand out now.
    pub closed spec fn staged(&self) -> Strategy {
        self.staged
    }

    pub fn build(self) -> (r: Strategy)
        ensures
            r == self.staged(),
    {
        self.staged
    }

    /// Sets `fail_fast`.
    pub fn fail_fast(self, value: Value) -> (r: StrategyBuilder)
        ensures
            r.staged().fail_fast == Option::Some(value),
            (r.staged() == (Strategy { fail_fast: r.staged().fail_fast, ..self.staged() })),
    {
        let mut b = self;
        b.staged.fail_fast = Option::Some(value);
        b
    }

    /// Sets `max_parallel`.
    pub fn max_parallel(self, value: Value) -> (r: StrategyBuilder)
        ensures
            r.staged().max_parallel == Option::Some(value),
            (r.staged() == (Strategy { max_parallel: r.staged().max_parallel, ..self.staged() })),
    {
        let mut b = self;
        b.staged.max_parallel = Option::Some(value);
        b
    }

    /// Sets the whole list of variants under `key`.
    pub fn matrix(self, key: &str, values: Vec<Value>) -> (r: StrategyBuilder)
        requires
            self.staged().wf(),
        ensures
            r.staged().wf(),
            r.staged().matrix.view() == self.staged().matrix.view().insert(key@, values),
            (r.staged() == (Strategy { matrix: r.staged().matrix, ..self.staged() })),
    {
        let mut b = self;
        b.staged.matrix.insert(key.to_owned(), values);
        b
    }

    /// Appends `value` to the variants under `key`, starting the list when the key is new.
    pub fn add_to_matrix(self, key: &str, value: Value) -> (r: StrategyBuilder)
        requires
            self.staged().wf(),
        ensures
            r.staged().wf(),
            r.staged().matrix.view() == self.staged().matrix.view().insert(key@, r.staged().matrix.view()[key@]),
            r.staged().matrix.view()[key@]@ == extended(self.staged().matrix.view(), key@, value),
            (r.staged() == (Strategy { matrix: r.staged().matrix, ..self.staged() })),
    {
        let mut b = self;
        let mut list = match b.staged.matrix.remove(key) {
            Option::Some(l) => l,
            Option::None => Vec::new(),
        };
        list.push(value);
        b.staged.matrix.insert(key.to_owned(), list);
        b
    }

}

impl Strategy {
    /// `d` is the document of this value: the fields that are not empty,
    /// in declaration order under their written keys, each with its own document.
    pub open spec fn documented_by(&self, d: Doc) -> bool {
        &&& d is Fields
        &&& keys_of(d) == opt_key(self.matrix.keys().len() > 0, "matrix"@)
            + opt_key(self.fail_fast is Some, "fail-fast"@)
            + opt_key(self.max_parallel is Some, "max-parallel"@)
        &&& self.documents_part_0(entries_of(d))
    }

    /// Each of `matrix`, `fail-fast`, `max-parallel` that is not empty stands in `fs` with its document.
    pub open spec fn documents_part_0(&self, fs: Seq<(String, Doc)>) -> bool {
        &&& self.matrix.keys().len() > 0 ==> holds_in(fs, "matrix"@, |c: Doc| is_list_map(c, self.matrix))
        &&& self.fail_fast is Some ==> holds_in(fs, "fail-fast"@, |c: Doc| c == Doc::Data(self.fail_fast->Some_0))
        &&& self.max_parallel is Some ==> holds_in(fs, "max-parallel"@, |c: Doc| c == Doc::Data(self.max_parallel->Some_0))
    }

    proof fn lemma_part_0_kept(&self, a: Seq<(String, Doc)>, b: Seq<(String, Doc)>)
        requires
            self.documents_part_0(a),
            b.len() >= a.len(),
            forall|i: int| 0 <= i < a.len() ==> #[trigger] b[i] == a[i],
        ensures
            self.documents_part_0(b),
    {
        if self.matrix.keys().len() > 0 {
            let i = choose|i: int| 0 <= i < a.len() && a[i].0@ == "matrix"@ && is_list_map(a[i].1, self.matrix);
            assert(b[i] == a[i]);
        }
        if self.fail_fast is Some {
            let i = choose|i: int| 0 <= i < a.len() && a[i].0@ == "fail-fast"@ && a[i].1 == Doc::Data(self.fail_fast->Some_0);
            assert(b[i] == a[i]);
        }
        if self.max_parallel is Some {
            let i = choose|i: int| 0 <= i < a.len() && a[i].0@ == "max-parallel"@ && a[i].1 == Doc::Data(self.max_parallel->Some_0);
            assert(b[i] == a[i]);
        }
    }

    #[verifier::spinoff_prover]
    #[verifier::rlimit(100)]
    fn push_doc_fields_0(&self, fs: &mut Vec<(String, Doc)>)
        ensures
            entry_keys(final(fs)@) == entry_keys(old(fs)@) + opt_key(self.matrix.keys().len() > 0, "matrix"@)
                + opt_key(self.fail_fast is Some, "fail-fast"@)
                + opt_key(self.max_parallel is Some, "max-parallel"@),
            final(fs)@.len() >= old(fs)@.len(),
            forall|i: int| 0 <= i < old(fs)@.len() ==> #[trigger] final(fs)@[i] == old(fs)@[i],
            self.documents_part_0(final(fs)@),
    {
        // Each value is built whether or not its field is written; `push_opt`
        // drops the ones that are left out.
        let ghost at0: int = fs@.len() as int;
        let w0 = self.matrix.len() > 0;
        let c0 = list_map_doc(&self.matrix);
        push_opt(fs, w0, "matrix", c0);
        let ghost at1: int = fs@.len() as int;
        let w1 = self.fail_fast.is_some();
        let c1 = match &self.fail_fast { Option::Some(x) => Doc::Data(x.clone()), Option::None => Doc::Flag(false) };
        push_opt(fs, w1, "fail-fast", c1);
        let ghost at2: int = fs@.len() as int;
        let w2 = self.max_parallel.is_some();
        let c2 = match &self.max_parallel { Option::Some(x) => Doc::Data(x.clone()), Option::None => Doc::Flag(false) };
        push_opt(fs, w2, "max-parallel", c2);
        proof {
            if self.matrix.keys().len() > 0 {
                assert(fs@[at0].0@ == "matrix"@);
                assert(is_list_map(fs@[at0].1, self.matrix));
            }
            if self.fail_fast is Some {
                assert(fs@[at1].0@ == "fail-fast"@);
                assert(fs@[at1].1 == Doc::Data(self.fail_fast->Some_0));
            }
            if self.max_parallel is Some {
                assert(fs@[at2].0@ == "max-parallel"@);
                assert(fs@[at2].1 == Doc::Data(self.max_parallel->Some_0));
            }
        }
    }

    /// The document of this value.
    #[verifier::spinoff_prover]
    #[verifier::rlimit(100)]
    pub fn to_doc(&self) -> (r: Doc)
        ensures
            self.documented_by(r),
    {
        let mut fs: Vec<(String, Doc)> = Vec::new();
        assert(entry_keys(fs@) =~= Seq::<Seq<char>>::empty());
        let ghost before0 = fs@;
        self.push_doc_fields_0(&mut fs);
        assert(entry_keys(fs@) =~= opt_key(self.matrix.keys().len() > 0, "matrix"@)
            + opt_key(self.fail_fast is Some, "fail-fast"@)
            + opt_key(self.max_parallel is Some, "max-parallel"@));
        proof {
        }
        Doc::Fields(fs)
    }
}

} // verus!
