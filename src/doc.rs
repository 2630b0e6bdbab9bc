//! The document form of the model: nested fields in a fixed order, from
//! which every empty or default field has been left out.
use vstd::prelude::*;
use crate::keyed::KeyedMap;
use crate::permissions::{PermissionValue, Permissions};
use crate::text::texts;
use serde_yml::Value;

verus! {

/// A node of the written document.
#[derive(Debug)]
pub enum Doc {
    Text(String),
    Flag(bool),
    Data(Value),
    Texts(Vec<String>),
    Datas(Vec<Value>),
    Docs(Vec<Doc>),
    Fields(Vec<(String, Doc)>),
}

/// The keys of a mapping node, in the order in which they are written.
pub open spec fn keys_of(d: Doc) -> Seq<Seq<char>> {
    match d {
        Doc::Fields(fs) => entry_keys(fs@),
        _ => Seq::empty(),
    }
}

/// The entries of a mapping node.
pub open spec fn entries_of(d: Doc) -> Seq<(String, Doc)> {
    match d {
        Doc::Fields(fs) => fs@,
        _ => Seq::empty(),
    }
}

/// `key` when the field is written, nothing when it is left out.
pub open spec fn opt_key(written: bool, key: Seq<char>) -> Seq<Seq<char>> {
    if written {
        seq![key]
    } else {
        Seq::empty()
    }
}

/// `fs` has an entry under `key` whose value meets `p`.
pub open spec fn holds_in(fs: Seq<(String, Doc)>, key: Seq<char>, p: spec_fn(Doc) -> bool) -> bool {
    exists|i: int| #![trigger fs[i]] 0 <= i < fs.len() && fs[i].0@ == key && p(fs[i].1)
}

/// `d` is a mapping with an entry under `key` whose value meets `p`.
pub open spec fn holds(d: Doc, key: Seq<char>, p: spec_fn(Doc) -> bool) -> bool {
    holds_in(entries_of(d), key, p)
}

/// `d` is the text `s`.
pub open spec fn is_text(d: Doc, s: Seq<char>) -> bool {
    d is Text && d->Text_0@ == s
}

/// `d` is the list of texts `v`, in order.
pub open spec fn is_texts(d: Doc, v: Seq<String>) -> bool {
    d is Texts && texts(d->Texts_0@) == texts(v)
}

/// `d` is the list of values `v`, in order.
pub open spec fn is_datas(d: Doc, v: Seq<Value>) -> bool {
    d is Datas && d->Datas_0@ == v
}

/// `d` writes the map `m` of texts: its keys in order, each with its text.
pub open spec fn is_text_map(d: Doc, m: KeyedMap<String>) -> bool {
    &&& d is Fields
    &&& keys_of(d) == m.keys()
    &&& entries_of(d).len() == m.values().len()
    &&& forall|i: int| 0 <= i < entries_of(d).len() ==> is_text(#[trigger] entries_of(d)[i].1, m.values()[i]@)
}

/// `d` writes the map `m` of values: its keys in order, each with its value.
pub open spec fn is_data_map(d: Doc, m: KeyedMap<Value>) -> bool {
    &&& d is Fields
    &&& keys_of(d) == m.keys()
    &&& entries_of(d).len() == m.values().len()
    &&& forall|i: int| 0 <= i < entries_of(d).len() ==> #[trigger] entries_of(d)[i].1 == Doc::Data(m.values()[i])
}

/// `d` writes the map `m` of value lists: its keys in order, each with its list.
pub open spec fn is_list_map(d: Doc, m: KeyedMap<Vec<Value>>) -> bool {
    &&& d is Fields
    &&& keys_of(d) == m.keys()
    &&& entries_of(d).len() == m.values().len()
    &&& forall|i: int| 0 <= i < entries_of(d).len() ==> is_datas(#[trigger] entries_of(d)[i].1, m.values()[i]@)
}

/// The keys of a list of entries, in order.
pub open spec fn entry_keys(fs: Seq<(String, Doc)>) -> Seq<Seq<char>> {
    fs.map_values(|e: (String, Doc)| e.0@)
}

/// Appends the entry `key: doc` when `written` holds, and nothing otherwise.
pub fn push_opt(fs: &mut Vec<(String, Doc)>, written: bool, key: &str, doc: Doc)
    ensures
        entry_keys(final(fs)@) == entry_keys(old(fs)@) + opt_key(written, key@),
        final(fs)@.len() == old(fs)@.len() + (if written { 1int } else { 0int }),
        forall|i: int| 0 <= i < old(fs)@.len() ==> #[trigger] final(fs)@[i] == old(fs)@[i],
        written ==> final(fs)@[old(fs)@.len() as int].0@ == key@,
        written ==> final(fs)@[old(fs)@.len() as int].1 == doc,
{
    if written {
        fs.push((key.to_owned(), doc));
        assert(entry_keys(fs@) =~= entry_keys(old(fs)@) + opt_key(written, key@));
    } else {
        assert(entry_keys(fs@) =~= entry_keys(old(fs)@) + opt_key(written, key@));
    }
}

/// A copy of a list of strings.
pub fn copy_texts(v: &Vec<String>) -> (r: Vec<String>)
    ensures
        texts(r@) == texts(v@),
{
    let mut r: Vec<String> = Vec::new();
    let mut i: usize = 0;
    while i < v.len()
        invariant
            i <= v@.len(),
            r@ == v@.subrange(0, i as int),
        decreases v.len() - i,
    {
        r.push(v[i].clone());
        assert(r@ =~= v@.subrange(0, i + 1));
        i += 1;
    }
    assert(r@ =~= v@);
    r
}

/// A copy of a list of values.
pub fn copy_values(v: &Vec<Value>) -> (r: Vec<Value>)
    ensures
        r@ == v@,
{
    let mut r: Vec<Value> = Vec::new();
    let mut i: usize = 0;
    while i < v.len()
        invariant
            i <= v@.len(),
            r@ == v@.subrange(0, i as int),
        decreases v.len() - i,
    {
        r.push(v[i].clone());
        assert(r@ =~= v@.subrange(0, i + 1));
        i += 1;
    }
    assert(r@ =~= v@);
    r
}

pub fn text_map_doc(m: &KeyedMap<String>) -> (r: Doc)
    ensures
        is_text_map(r, *m),
{
    let mut fs: Vec<(String, Doc)> = Vec::new();
    let n = m.len();
    let mut i: usize = 0;
    while i < n
        invariant
            n == m.keys().len(),
            n == m.values().len(),
            i <= n,
            fs@.len() == i,
            forall|j: int| 0 <= j < i ==> (#[trigger] fs@[j]).0@ == m.keys()[j],
            forall|j: int| 0 <= j < i ==> is_text((#[trigger] fs@[j]).1, m.values()[j]@),
        decreases n - i,
    {
        let (k, v) = m.entry(i);
        fs.push((k.clone(), Doc::Text(v.clone())));
        i += 1;
    }
    let r = Doc::Fields(fs);
    assert(keys_of(r) =~= m.keys());
    r
}

pub fn data_map_doc(m: &KeyedMap<Value>) -> (r: Doc)
    ensures
        is_data_map(r, *m),
{
    let mut fs: Vec<(String, Doc)> = Vec::new();
    let n = m.len();
    let mut i: usize = 0;
    while i < n
        invariant
            n == m.keys().len(),
            n == m.values().len(),
            i <= n,
            fs@.len() == i,
            forall|j: int| 0 <= j < i ==> (#[trigger] fs@[j]).0@ == m.keys()[j],
            forall|j: int| 0 <= j < i ==> (#[trigger] fs@[j]).1 == Doc::Data(m.values()[j]),
        decreases n - i,
    {
        let (k, v) = m.entry(i);
        fs.push((k.clone(), Doc::Data(v.clone())));
        i += 1;
    }
    let r = Doc::Fields(fs);
    assert(keys_of(r) =~= m.keys());
    r
}

pub fn list_map_doc(m: &KeyedMap<Vec<Value>>) -> (r: Doc)
    ensures
        is_list_map(r, *m),
{
    let mut fs: Vec<(String, Doc)> = Vec::new();
    let n = m.len();
    let mut i: usize = 0;
    while i < n
        invariant
            n == m.keys().len(),
            n == m.values().len(),
            i <= n,
            fs@.len() == i,
            forall|j: int| 0 <= j < i ==> (#[trigger] fs@[j]).0@ == m.keys()[j],
            forall|j: int| 0 <= j < i ==> is_datas((#[trigger] fs@[j]).1, m.values()[j]@),
        decreases n - i,
    {
        let (k, v) = m.entry(i);
        fs.push((k.clone(), Doc::Datas(copy_values(v))));
        i += 1;
    }
    let r = Doc::Fields(fs);
    assert(keys_of(r) =~= m.keys());
    r
}

impl Permissions {
    /// `d` is the document of this value: the fields that are not empty,
    /// in declaration order under their written keys, each with its own document.
    pub open spec fn documented_by(&self, d: Doc) -> bool {
        &&& d is Fields
        &&& keys_of(d) == opt_key(self.actions != PermissionValue::Unset, "actions"@)
            + opt_key(self.attestations != PermissionValue::Unset, "attestations"@)
            + opt_key(self.checks != PermissionValue::Unset, "checks"@)
            + opt_key(self.contents != PermissionValue::Unset, "contents"@)
            + opt_key(self.deployments != PermissionValue::Unset, "deployments"@)
            + opt_key(self.id != PermissionValue::Unset, "id"@)
            + opt_key(self.issues != PermissionValue::Unset, "issues"@)
            + opt_key(self.discussions != PermissionValue::Unset, "discussions"@)
            + opt_key(self.packages != PermissionValue::Unset, "packages"@)
            + opt_key(self.pages != PermissionValue::Unset, "pages"@)
            + opt_key(self.pull != PermissionValue::Unset, "pull"@)
            + opt_key(self.repository != PermissionValue::Unset, "repository"@)
            + opt_key(self.security != PermissionValue::Unset, "security"@)
            + opt_key(self.statuses != PermissionValue::Unset, "statuses"@)
        &&& self.documents_part_0(entries_of(d))
        &&& self.documents_part_1(entries_of(d))
    }

    /// Each of `actions`, `attestations`, `checks`, `contents`, `deployments`, `id`, `issues` that is not empty stands in `fs` with its document.
    pub open spec fn documents_part_0(&self, fs: Seq<(String, Doc)>) -> bool {
        &&& self.actions != PermissionValue::Unset ==> holds_in(fs, "actions"@, |c: Doc| is_text(c, self.actions.token_spec()))
        &&& self.attestations != PermissionValue::Unset ==> holds_in(fs, "attestations"@, |c: Doc| is_text(c, self.attestations.token_spec()))
        &&& self.checks != PermissionValue::Unset ==> holds_in(fs, "checks"@, |c: Doc| is_text(c, self.checks.token_spec()))
        &&& self.contents != PermissionValue::Unset ==> holds_in(fs, "contents"@, |c: Doc| is_text(c, self.contents.token_spec()))
        &&& self.deployments != PermissionValue::Unset ==> holds_in(fs, "deployments"@, |c: Doc| is_text(c, self.deployments.token_spec()))
        &&& self.id != PermissionValue::Unset ==> holds_in(fs, "id"@, |c: Doc| is_text(c, self.id.token_spec()))
        &&& self.issues != PermissionValue::Unset ==> holds_in(fs, "issues"@, |c: Doc| is_text(c, self.issues.token_spec()))
    }

    proof fn lemma_part_0_kept(&self, a: Seq<(String, Doc)>, b: Seq<(String, Doc)>)
        requires
            self.documents_part_0(a),
            b.len() >= a.len(),
            forall|i: int| 0 <= i < a.len() ==> #[trigger] b[i] == a[i],
        ensures
            self.documents_part_0(b),
    {
        if self.actions != PermissionValue::Unset {
            let i = choose|i: int| 0 <= i < a.len() && a[i].0@ == "actions"@ && is_text(a[i].1, self.actions.token_spec());
            assert(b[i] == a[i]);
        }
        if self.attestations != PermissionValue::Unset {
            let i = choose|i: int| 0 <= i < a.len() && a[i].0@ == "attestations"@ && is_text(a[i].1, self.attestations.token_spec());
            assert(b[i] == a[i]);
        }
        if self.checks != PermissionValue::Unset {
            let i = choose|i: int| 0 <= i < a.len() && a[i].0@ == "checks"@ && is_text(a[i].1, self.checks.token_spec());
            assert(b[i] == a[i]);
        }
        if self.contents != PermissionValue::Unset {
            let i = choose|i: int| 0 <= i < a.len() && a[i].0@ == "contents"@ && is_text(a[i].1, self.contents.token_spec());
            assert(b[i] == a[i]);
        }
        if self.deployments != PermissionValue::Unset {
            let i = choose|i: int| 0 <= i < a.len() && a[i].0@ == "deployments"@ && is_text(a[i].1, self.deployments.token_spec());
            assert(b[i] == a[i]);
        }
        if self.id != PermissionValue::Unset {
            let i = choose|i: int| 0 <= i < a.len() && a[i].0@ == "id"@ && is_text(a[i].1, self.id.token_spec());
            assert(b[i] == a[i]);
        }
        if self.issues != PermissionValue::Unset {
            let i = choose|i: int| 0 <= i < a.len() && a[i].0@ == "issues"@ && is_text(a[i].1, self.issues.token_spec());
            assert(b[i] == a[i]);
        }
    }

    #[verifier::spinoff_prover]
    #[verifier::rlimit(100)]
    fn push_doc_fields_0(&self, fs: &mut Vec<(String, Doc)>)
        ensures
            entry_keys(final(fs)@) == entry_keys(old(fs)@) + opt_key(self.actions != PermissionValue::Unset, "actions"@)
                + opt_key(self.attestations != PermissionValue::Unset, "attestations"@)
                + opt_key(self.checks != PermissionValue::Unset, "checks"@)
                + opt_key(self.contents != PermissionValue::Unset, "contents"@)
                + opt_key(self.deployments != PermissionValue::Unset, "deployments"@)
                + opt_key(self.id != PermissionValue::Unset, "id"@)
                + opt_key(self.issues != PermissionValue::Unset, "issues"@),
            final(fs)@.len() >= old(fs)@.len(),
            forall|i: int| 0 <= i < old(fs)@.len() ==> #[trigger] final(fs)@[i] == old(fs)@[i],
            self.documents_part_0(final(fs)@),
    {
        // Each value is built whether or not its field is written; `push_opt`
        // drops the ones that are left out.
        let ghost at0: int = fs@.len() as int;
        let w0 = !self.actions.is_none();
        let c0 = Doc::Text(self.actions.token().to_owned());
        push_opt(fs, w0, "actions", c0);
        let ghost at1: int = fs@.len() as int;
        let w1 = !self.attestations.is_none();
        let c1 = Doc::Text(self.attestations.token().to_owned());
        push_opt(fs, w1, "attestations", c1);
        let ghost at2: int = fs@.len() as int;
        let w2 = !self.checks.is_none();
        let c2 = Doc::Text(self.checks.token().to_owned());
        push_opt(fs, w2, "checks", c2);
        let ghost at3: int = fs@.len() as int;
        let w3 = !self.contents.is_none();
        let c3 = Doc::Text(self.contents.token().to_owned());
        push_opt(fs, w3, "contents", c3);
        let ghost at4: int = fs@.len() as int;
        let w4 = !self.deployments.is_none();
        let c4 = Doc::Text(self.deployments.token().to_owned());
        push_opt(fs, w4, "deployments", c4);
        let ghost at5: int = fs@.len() as int;
        let w5 = !self.id.is_none();
        let c5 = Doc::Text(self.id.token().to_owned());
        push_opt(fs, w5, "id", c5);
        let ghost at6: int = fs@.len() as int;
        let w6 = !self.issues.is_none();
        let c6 = Doc::Text(self.issues.token().to_owned());
        push_opt(fs, w6, "issues", c6);
        proof {
            if self.actions != PermissionValue::Unset {
                assert(fs@[at0].0@ == "actions"@);
                assert(is_text(fs@[at0].1, self.actions.token_spec()));
            }
            if self.attestations != PermissionValue::Unset {
                assert(fs@[at1].0@ == "attestations"@);
                assert(is_text(fs@[at1].1, self.attestations.token_spec()));
            }
            if self.checks != PermissionValue::Unset {
                assert(fs@[at2].0@ == "checks"@);
                assert(is_text(fs@[at2].1, self.checks.token_spec()));
            }
            if self.contents != PermissionValue::Unset {
                assert(fs@[at3].0@ == "contents"@);
                assert(is_text(fs@[at3].1, self.contents.token_spec()));
            }
            if self.deployments != PermissionValue::Unset {
                assert(fs@[at4].0@ == "deployments"@);
                assert(is_text(fs@[at4].1, self.deployments.token_spec()));
            }
            if self.id != PermissionValue::Unset {
                assert(fs@[at5].0@ == "id"@);
                assert(is_text(fs@[at5].1, self.id.token_spec()));
            }
            if self.issues != PermissionValue::Unset {
                assert(fs@[at6].0@ == "issues"@);
                assert(is_text(fs@[at6].1, self.issues.token_spec()));
            }
        }
    }

    /// Each of `discussions`, `packages`, `pages`, `pull`, `repository`, `security`, `statuses` that is not empty stands in `fs` with its document.
    pub open spec fn documents_part_1(&self, fs: Seq<(String, Doc)>) -> bool {
        &&& self.discussions != PermissionValue::Unset ==> holds_in(fs, "discussions"@, |c: Doc| is_text(c, self.discussions.token_spec()))
        &&& self.packages != PermissionValue::Unset ==> holds_in(fs, "packages"@, |c: Doc| is_text(c, self.packages.token_spec()))
        &&& self.pages != PermissionValue::Unset ==> holds_in(fs, "pages"@, |c: Doc| is_text(c, self.pages.token_spec()))
        &&& self.pull != PermissionValue::Unset ==> holds_in(fs, "pull"@, |c: Doc| is_text(c, self.pull.token_spec()))
        &&& self.repository != PermissionValue::Unset ==> holds_in(fs, "repository"@, |c: Doc| is_text(c, self.repository.token_spec()))
        &&& self.security != PermissionValue::Unset ==> holds_in(fs, "security"@, |c: Doc| is_text(c, self.security.token_spec()))
        &&& self.statuses != PermissionValue::Unset ==> holds_in(fs, "statuses"@, |c: Doc| is_text(c, self.statuses.token_spec()))
    }

    proof fn lemma_part_1_kept(&self, a: Seq<(String, Doc)>, b: Seq<(String, Doc)>)
        requires
            self.documents_part_1(a),
            b.len() >= a.len(),
            forall|i: int| 0 <= i < a.len() ==> #[trigger] b[i] == a[i],
        ensures
            self.documents_part_1(b),
    {
        if self.discussions != PermissionValue::Unset {
            let i = choose|i: int| 0 <= i < a.len() && a[i].0@ == "discussions"@ && is_text(a[i].1, self.discussions.token_spec());
            assert(b[i] == a[i]);
        }
        if self.packages != PermissionValue::Unset {
            let i = choose|i: int| 0 <= i < a.len() && a[i].0@ == "packages"@ && is_text(a[i].1, self.packages.token_spec());
            assert(b[i] == a[i]);
        }
        if self.pages != PermissionValue::Unset {
            let i = choose|i: int| 0 <= i < a.len() && a[i].0@ == "pages"@ && is_text(a[i].1, self.pages.token_spec());
            assert(b[i] == a[i]);
        }
        if self.pull != PermissionValue::Unset {
            let i = choose|i: int| 0 <= i < a.len() && a[i].0@ == "pull"@ && is_text(a[i].1, self.pull.token_spec());
            assert(b[i] == a[i]);
        }
        if self.repository != PermissionValue::Unset {
            let i = choose|i: int| 0 <= i < a.len() && a[i].0@ == "repository"@ && is_text(a[i].1, self.repository.token_spec());
            assert(b[i] == a[i]);
        }
        if self.security != PermissionValue::Unset {
            let i = choose|i: int| 0 <= i < a.len() && a[i].0@ == "security"@ && is_text(a[i].1, self.security.token_spec());
            assert(b[i] == a[i]);
        }
        if self.statuses != PermissionValue::Unset {
            let i = choose|i: int| 0 <= i < a.len() && a[i].0@ == "statuses"@ && is_text(a[i].1, self.statuses.token_spec());
            assert(b[i] == a[i]);
        }
    }

    #[verifier::spinoff_prover]
    #[verifier::rlimit(100)]
    fn push_doc_fields_1(&self, fs: &mut Vec<(String, Doc)>)
        ensures
            entry_keys(final(fs)@) == entry_keys(old(fs)@) + opt_key(self.discussions != PermissionValue::Unset, "discussions"@)
                + opt_key(self.packages != PermissionValue::Unset, "packages"@)
                + opt_key(self.pages != PermissionValue::Unset, "pages"@)
                + opt_key(self.pull != PermissionValue::Unset, "pull"@)
                + opt_key(self.repository != PermissionValue::Unset, "repository"@)
                + opt_key(self.security != PermissionValue::Unset, "security"@)
                + opt_key(self.statuses != PermissionValue::Unset, "statuses"@),
            final(fs)@.len() >= old(fs)@.len(),
            forall|i: int| 0 <= i < old(fs)@.len() ==> #[trigger] final(fs)@[i] == old(fs)@[i],
            self.documents_part_1(final(fs)@),
    {
        // Each value is built whether or not its field is written; `push_opt`
        // drops the ones that are left out.
        let ghost at0: int = fs@.len() as int;
        let w0 = !self.discussions.is_none();
        let c0 = Doc::Text(self.discussions.token().to_owned());
        push_opt(fs, w0, "discussions", c0);
        let ghost at1: int = fs@.len() as int;
        let w1 = !self.packages.is_none();
        let c1 = Doc::Text(self.packages.token().to_owned());
        push_opt(fs, w1, "packages", c1);
        let ghost at2: int = fs@.len() as int;
        let w2 = !self.pages.is_none();
        let c2 = Doc::Text(self.pages.token().to_owned());
        push_opt(fs, w2, "pages", c2);
        let ghost at3: int = fs@.len() as int;
        let w3 = !self.pull.is_none();
        let c3 = Doc::Text(self.pull.token().to_owned());
        push_opt(fs, w3, "pull", c3);
        let ghost at4: int = fs@.len() as int;
        let w4 = !self.repository.is_none();
        let c4 = Doc::Text(self.repository.token().to_owned());
        push_opt(fs, w4, "repository", c4);
        let ghost at5: int = fs@.len() as int;
        let w5 = !self.security.is_none();
        let c5 = Doc::Text(self.security.token().to_owned());
        push_opt(fs, w5, "security", c5);
        let ghost at6: int = fs@.len() as int;
        let w6 = !self.statuses.is_none();
        let c6 = Doc::Text(self.statuses.token().to_owned());
        push_opt(fs, w6, "statuses", c6);
        proof {
            if self.discussions != PermissionValue::Unset {
                assert(fs@[at0].0@ == "discussions"@);
                assert(is_text(fs@[at0].1, self.discussions.token_spec()));
            }
            if self.packages != PermissionValue::Unset {
                assert(fs@[at1].0@ == "packages"@);
                assert(is_text(fs@[at1].1, self.packages.token_spec()));
            }
            if self.pages != PermissionValue::Unset {
                assert(fs@[at2].0@ == "pages"@);
                assert(is_text(fs@[at2].1, self.pages.token_spec()));
            }
            if self.pull != PermissionValue::Unset {
                assert(fs@[at3].0@ == "pull"@);
                assert(is_text(fs@[at3].1, self.pull.token_spec()));
            }
            if self.repository != PermissionValue::Unset {
                assert(fs@[at4].0@ == "repository"@);
                assert(is_text(fs@[at4].1, self.repository.token_spec()));
            }
            if self.security != PermissionValue::Unset {
                assert(fs@[at5].0@ == "security"@);
                assert(is_text(fs@[at5].1, self.security.token_spec()));
            }
            if self.statuses != PermissionValue::Unset {
                assert(fs@[at6].0@ == "statuses"@);
                assert(is_text(fs@[at6].1, self.statuses.token_spec()));
            }
        }
    }

    /// The document of this value.
    #[verifier::spinoff_prover]
    #[verifier::rlimit(100)]
    pub fn to_doc(&self) -> (r: Doc)
        ensures
            self.documented_by(r),
    {
        let mut fs: Vec<(String, Doc)> = Vec::new();
        assert(entry_keys(fs@) =~= Seq::<Seq<char>>::empty());
        let ghost before0 = fs@;
        self.push_doc_fields_0(&mut fs);
        assert(entry_keys(fs@) =~= opt_key(self.actions != PermissionValue::Unset, "actions"@)
            + opt_key(self.attestations != PermissionValue::Unset, "attestations"@)
            + opt_key(self.checks != PermissionValue::Unset, "checks"@)
            + opt_key(self.contents != PermissionValue::Unset, "contents"@)
            + opt_key(self.deployments != PermissionValue::Unset, "deployments"@)
            + opt_key(self.id != PermissionValue::Unset, "id"@)
            + opt_key(self.issues != PermissionValue::Unset, "issues"@));
        let ghost before1 = fs@;
        self.push_doc_fields_1(&mut fs);
        proof {
            self.lemma_part_0_kept(before1, fs@);
        }
        Doc::Fields(fs)
    }
}

} // verus!
