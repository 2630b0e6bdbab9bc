//! The events that start a workflow.
use vstd::prelude::*;
use crate::keyed::KeyedMap;
use crate::text::{push_text, texts};
use serde_yml::Value;
use crate::doc::{copy_texts, entries_of, entry_keys, holds_in, push_opt, is_text, is_texts, keys_of, opt_key, Doc};

verus! {

/// Filters of the pull-request trigger.
#[derive(Debug, Clone)]
pub struct PullRequest {
    pub branches: Vec<String>,
    pub branches_ignore: Vec<String>,
    pub paths: Vec<String>,
    pub paths_ignore: Vec<String>,
    pub types: Vec<String>,
}

impl PullRequest {
    /// The keyed fields are in order.
    pub open spec fn wf(&self) -> bool {
        true
    }

    /// Every field is at its starting value.
    pub open spec fn is_blank(&self) -> bool {
        self.branches@.len() == 0
        && self.branches_ignore@.len() == 0
        && self.paths@.len() == 0
        && self.paths_ignore@.len() == 0
        && self.types@.len() == 0
    }

    /// No field would be written out.
    pub open spec fn is_empty_spec(&self) -> bool {
        self.branches@.len() == 0
        && self.branches_ignore@.len() == 0
        && self.paths@.len() == 0
        && self.paths_ignore@.len() == 0
        && self.types@.len() == 0
    }

    /// Whether no field would be written out.
    pub fn is_empty(&self) -> (r: bool)
        ensures
            r == self.is_empty_spec(),
    {
        self.branches.len() == 0
            && self.branches_ignore.len() == 0
            && self.paths.len() == 0
            && self.paths_ignore.len() == 0
            && self.types.len() == 0
    }

    /// A value with every field at its starting value.
    pub fn new() -> (r: PullRequest)
        ensures
            r.is_blank(),
            r.wf(),
    {
        PullRequest {
            branches: Vec::new(),
            branches_ignore: Vec::new(),
            paths: Vec::new(),
            paths_ignore: Vec::new(),
            types: Vec::new(),
        }
    }

    /// Starts a builder with every field at its starting value.
    pub fn builder() -> (r: PullRequestBuilder)
        ensures
            r.staged().is_blank(),
            r.staged().wf(),
    {
        PullRequestBuilder { staged: PullRequest::new() }
    }
}

impl Default for PullRequest {
    fn default() -> (r: Self)
        ensures
            r.is_blank(),
    {
        PullRequest::new()
    }
}

/// Stages a [`PullRequest`]: lists only grow at their end, keyed fields take
/// the last value set under a key, and `build` hands out the result.
pub struct PullRequestBuilder {
    staged: PullRequest,
}

impl PullRequestBuilder {
    /// What `build` would hand out now.
    pub closed spec fn staged(&self) -> PullRequest {
        self.staged
    }

    pub fn build(self) -> (r: PullRequest)
        ensures
            r == self.staged(),
    {
        self.staged
    }

    /// Appends `value` to `branches`.
    pub fn branch(self, value: &str) -> (r: PullRequestBuilder)
        ensures
            texts(r.staged().branches@) == texts(self.staged().branches@).push(value@),
            (r.staged() == (PullRequest { branches: r.staged().branches, ..self.staged() })),
    {
        let mut b = self;
        push_text(&mut b.staged.branches, value);
        b
    }

    /// Appends `value` to `branches_ignore`.
    pub fn ignore_branch(self, value: &str) -> (r: PullRequestBuilder)
        ensures
            texts(r.staged().branches_ignore@) == texts(self.staged().branches_ignore@).push(value@),
            (r.staged() == (PullRequest { branches_ignore: r.staged().branches_ignore, ..self.staged() })),
    {
        let mut b = self;
        push_text(&mut b.staged.branches_ignore, value);
        b
    }

    /// Appends `value` to `paths`.
    pub fn path(self, value: &str) -> (r: PullRequestBuilder)
        ensures
            texts(r.staged().paths@) == texts(self.staged().paths@).push(value@),
            (r.staged() == (PullRequest { paths: r.staged().paths, ..self.staged() })),
    {
        let mut b = self;
        push_text(&mut b.staged.paths, value);
        b
    }

    /// Appends `value` to `paths_ignore`.
    pub fn ignore_path(self, value: &str) -> (r: PullRequestBuilder)
        ensures
            texts(r.staged().paths_ignore@) == texts(self.staged().paths_ignore@).push(value@),
            (r.staged() == (PullRequest { paths_ignore: r.staged().paths_ignore, ..self.staged() })),
    {
        let mut b = self;
        push_text(&mut b.staged.paths_ignore, value);
        b
    }

    /// Appends `value` to `types`.
    pub fn event_type(self, value: &str) -> (r: PullRequestBuilder)
        ensures
            texts(r.staged().types@) == texts(self.staged().types@).push(value@),
            (r.staged() == (PullRequest { types: r.staged().types, ..self.staged() })),
    {
        let mut b = self;
        push_text(&mut b.staged.types, value);
        b
    }

}

impl PullRequest {
    /// `d` is the document of this value: the fields that are not empty,
    /// in declaration order under their written keys, each with its own document.
    pub open spec fn documented_by(&self, d: Doc) -> bool {
        &&& d is Fields
        &&& keys_of(d) == opt_key(self.branches@.len() > 0, "branches"@)
            + opt_key(self.branches_ignore@.len() > 0, "branches-ignore"@)
            + opt_key(self.paths@.len() > 0, "paths"@)
            + opt_key(self.paths_ignore@.len() > 0, "paths-ignore"@)
            + opt_key(self.types@.len() > 0, "types"@)
        &&& self.documents_part_0(entries_of(d))
    }

    /// Each of `branches`, `branches-ignore`, `paths`, `paths-ignore`, `types` that is not empty stands in `fs` with its document.
    pub open spec fn documents_part_0(&self, fs: Seq<(String, Doc)>) -> bool {
        &&& self.branches@.len() > 0 ==> holds_in(fs, "branches"@, |c: Doc| is_texts(c, self.branches@))
        &&& self.branches_ignore@.len() > 0 ==> holds_in(fs, "branches-ignore"@, |c: Doc| is_texts(c, self.branches_ignore@))
        &&& self.paths@.len() > 0 ==> holds_in(fs, "paths"@, |c: Doc| is_texts(c, self.paths@))
        &&& self.paths_ignore@.len() > 0 ==> holds_in(fs, "paths-ignore"@, |c: Doc| is_texts(c, self.paths_ignore@))
        &&& self.types@.len() > 0 ==> holds_in(fs, "types"@, |c: Doc| is_texts(c, self.types@))
    }

    proof fn lemma_part_0_kept(&self, a: Seq<(String, Doc)>, b: Seq<(String, Doc)>)
        requires
            self.documents_part_0(a),
            b.len() >= a.len(),
            forall|i: int| 0 <= i < a.len() ==> #[trigger] b[i] == a[i],
        ensures
            self.documents_part_0(b),
    {
        if self.branches@.len() > 0 {
            let i = choose|i: int| 0 <= i < a.len() && a[i].0@ == "branches"@ && is_texts(a[i].1, self.branches@);
            assert(b[i] == a[i]);
        }
        if self.branches_ignore@.len() > 0 {
            let i = choose|i: int| 0 <= i < a.len() && a[i].0@ == "branches-ignore"@ && is_texts(a[i].1, self.branches_ignore@);
            assert(b[i] == a[i]);
        }
        if self.paths@.len() > 0 {
            let i = choose|i: int| 0 <= i < a.len() && a[i].0@ == "paths"@ && is_texts(a[i].1, self.paths@);
            assert(b[i] == a[i]);
        }
        if self.paths_ignore@.len() > 0 {
            let i = choose|i: int| 0 <= i < a.len() && a[i].0@ == "paths-ignore"@ && is_texts(a[i].1, self.paths_ignore@);
            assert(b[i] == a[i]);
        }
        if self.types@.len() > 0 {
            let i = choose|i: int| 0 <= i < a.len() && a[i].0@ == "types"@ && is_texts(a[i].1, self.types@);
            assert(b[i] == a[i]);
        }
    }

    #[verifier::spinoff_prover]
    #[verifier::rlimit(100)]
    fn push_doc_fields_0(&self, fs: &mut Vec<(String, Doc)>)
        ensures
            entry_keys(final(fs)@) == entry_keys(old(fs)@) + opt_key(self.branches@.len() > 0, "branches"@)
                + opt_key(self.branches_ignore@.len() > 0, "branches-ignore"@)
                + opt_key(self.paths@.len() > 0, "paths"@)
                + opt_key(self.paths_ignore@.len() > 0, "paths-ignore"@)
                + opt_key(self.types@.len() > 0, "types"@),
            final(fs)@.len() >= old(fs)@.len(),
            forall|i: int| 0 <= i < old(fs)@.len() ==> #[trigger] final(fs)@[i] == old(fs)@[i],
            self.documents_part_0(final(fs)@),
    {
        // Each value is built whether or not its field is written; `push_opt`
        // drops the ones that are left out.
        let ghost at0: int = fs@.len() as int;
        let w0 = self.branches.len() > 0;
        let c0 = Doc::Texts(copy_texts(&self.branches));
        push_opt(fs, w0, "branches", c0);
        let ghost at1: int = fs@.len() as int;
        let w1 = self.branches_ignore.len() > 0;
        let c1 = Doc::Texts(copy_texts(&self.branches_ignore));
        push_opt(fs, w1, "branches-ignore", c1);
        let ghost at2: int = fs@.len() as int;
        let w2 = self.paths.len() > 0;
        let c2 = Doc::Texts(copy_texts(&self.paths));
        push_opt(fs, w2, "paths", c2);
        let ghost at3: int = fs@.len() as int;
        let w3 = self.paths_ignore.len() > 0;
        let c3 = Doc::Texts(copy_texts(&self.paths_ignore));
        push_opt(fs, w3, "paths-ignore", c3);
        let ghost at4: int = fs@.len() as int;
        let w4 = self.types.len() > 0;
        let c4 = Doc::Texts(copy_texts(&self.types));
        push_opt(fs, w4, "types", c4);
        proof {
            if self.branches@.len() > 0 {
                assert(fs@[at0].0@ == "branches"@);
                assert(is_texts(fs@[at0].1, self.branches@));
            }
            if self.branches_ignore@.len() > 0 {
                assert(fs@[at1].0@ == "branches-ignore"@);
                assert(is_texts(fs@[at1].1, self.branches_ignore@));
            }
            if self.paths@.len() > 0 {
                assert(fs@[at2].0@ == "paths"@);
                assert(is_texts(fs@[at2].1, self.paths@));
            }
            if self.paths_ignore@.len() > 0 {
                assert(fs@[at3].0@ == "paths-ignore"@);
                assert(is_texts(fs@[at3].1, self.paths_ignore@));
            }
            if self.types@.len() > 0 {
                assert(fs@[at4].0@ == "types"@);
                assert(is_texts(fs@[at4].1, self.types@));
            }
        }
    }

    /// The document of this value.
    #[verifier::spinoff_prover]
    #[verifier::rlimit(100)]
    pub fn to_doc(&self) -> (r: Doc)
        ensures
            self.documented_by(r),
    {
        let mut fs: Vec<(String, Doc)> = Vec::new();
        assert(entry_keys(fs@) =~= Seq::<Seq<char>>::empty());
        let ghost before0 = fs@;
        self.push_doc_fields_0(&mut fs);
        assert(entry_keys(fs@) =~= opt_key(self.branches@.len() > 0, "branches"@)
            + opt_key(self.branches_ignore@.len() > 0, "branches-ignore"@)
            + opt_key(self.paths@.len() > 0, "paths"@)
            + opt_key(self.paths_ignore@.len() > 0, "paths-ignore"@)
            + opt_key(self.types@.len() > 0, "types"@));
        proof {
        }
        Doc::Fields(fs)
    }
}

/// Filters of the push trigger.
#[derive(Debug, Clone)]
pub struct Push {
    pub branches: Vec<String>,
    pub tags: Vec<String>,
    pub branches_ignore: Vec<String>,
    pub tags_ignore: Vec<String>,
    pub paths: Vec<String>,
    pub paths_ignore: Vec<String>,
    pub types: Vec<String>,
}

impl Push {
    /// The keyed fields are in order.
    pub open spec fn wf(&self) -> bool {
        true
    }

    /// Every field is at its starting value.
    pub open spec fn is_blank(&self) -> bool {
        self.branches@.len() == 0
        && self.tags@.len() == 0
        && self.branches_ignore@.len() == 0
        && self.tags_ignore@.len() == 0
        && self.paths@.len() == 0
        && self.paths_ignore@.len() == 0
        && self.types@.len() == 0
    }

    /// No field would be written out.
    pub open spec fn is_empty_spec(&self) -> bool {
        self.branches@.len() == 0
        && self.tags@.len() == 0
        && self.branches_ignore@.len() == 0
        && self.tags_ignore@.len() == 0
        && self.paths@.len() == 0
        && self.paths_ignore@.len() == 0
        && self.types@.len() == 0
    }

    /// Whether no field would be written out.
    pub fn is_empty(&self) -> (r: bool)
        ensures
            r == self.is_empty_spec(),
    {
        self.branches.len() == 0
            && self.tags.len() == 0
            && self.branches_ignore.len() == 0
            && self.tags_ignore.len() == 0
            && self.paths.len() == 0
            && self.paths_ignore.len() == 0
            && self.types.len() == 0
    }

    /// A value with every field at its starting value.
    pub fn new() -> (r: Push)
        ensures
            r.is_blank(),
            r.wf(),
    {
        Push {
            branches: Vec::new(),
            tags: Vec::new(),
            branches_ignore: Vec::new(),
            tags_ignore: Vec::new(),
            paths: Vec::new(),
            paths_ignore: Vec::new(),
            types: Vec::new(),
        }
    }

    /// Starts a builder with every field at its starting value.
    pub fn builder() -> (r: PushBuilder)
        ensures
            r.staged().is_blank(),
            r.staged().wf(),
    {
        PushBuilder { staged: Push::new() }
    }
}

impl Default for Push {
    fn default() -> (r: Self)
        ensures
            r.is_blank(),
    {
        Push::new()
    }
}

/// Stages a [`Push`]: lists only grow at their end, keyed fields take
/// the last value set under a key, and `build` hands out the result.
pub struct PushBuilder {
    staged: Push,
}

impl PushBuilder {
    /// What `build` would hand out now.
    pub closed spec fn staged(&self) -> Push {
        self.staged
    }

    pub fn build(self) -> (r: Push)
        ensures
            r == self.staged(),
    {
        self.staged
    }

    /// Appends `value` to `branches`.
    pub fn branch(self, value: &str) -> (r: PushBuilder)
        ensures
            texts(r.staged().branches@) == texts(self.staged().branches@).push(value@),
            (r.staged() == (Push { branches: r.staged().branches, ..self.staged() })),
    {
        let mut b = self;
        push_text(&mut b.staged.branches, value);
        b
    }

    /// Appends `value` to `tags`.
    pub fn tag(self, value: &str) -> (r: PushBuilder)
        ensures
            texts(r.staged().tags@) == texts(self.staged().tags@).push(value@),
            (r.staged() == (Push { tags: r.staged().tags, ..self.staged() })),
    {
        let mut b = self;
        push_text(&mut b.staged.tags, value);
        b
    }

    /// Appends `value` to `branches_ignore`.
    pub fn ignore_branch(self, value: &str) -> (r: PushBuilder)
        ensures
            texts(r.staged().branches_ignore@) == texts(self.staged().branches_ignore@).push(value@),
            (r.staged() == (Push { branches_ignore: r.staged().branches_ignore, ..self.staged() })),
    {
        let mut b = self;
        push_text(&mut b.staged.branches_ignore, value);
        b
    }

    /// Appends `value` to `tags_ignore`.
    pub fn ignore_tag(self, value: &str) -> (r: PushBuilder)
        ensures
            texts(r.staged().tags_ignore@) == texts(self.staged().tags_ignore@).push(value@),
            (r.staged() == (Push { tags_ignore: r.staged().tags_ignore, ..self.staged() })),
    {
        let mut b = self;
        push_text(&mut b.staged.tags_ignore, value);
        b
    }

    /// Appends `value` to `paths`.
    pub fn path(self, value: &str) -> (r: PushBuilder)
        ensures
            texts(r.staged().paths@) == texts(self.staged().paths@).push(value@),
            (r.staged() == (Push { paths: r.staged().paths, ..self.staged() })),
    {
        let mut b = self;
        push_text(&mut b.staged.paths, value);
        b
    }

    /// Appends `value` to `paths_ignore`.
    pub fn ignore_path(self, value: &str) -> (r: PushBuilder)
        ensures
            texts(r.staged().paths_ignore@) == texts(self.staged().paths_ignore@).push(value@),
            (r.staged() == (Push { paths_ignore: r.staged().paths_ignore, ..self.staged() })),
    {
        let mut b = self;
        push_text(&mut b.staged.paths_ignore, value);
        b
    }

    /// Appends `value` to `types`.
    pub fn event_type(self, value: &str) -> (r: PushBuilder)
        ensures
            texts(r.staged().types@) == texts(self.staged().types@).push(value@),
            (r.staged() == (Push { types: r.staged().types, ..self.staged() })),
    {
        let mut b = self;
        push_text(&mut b.staged.types, value);
        b
    }

}

impl Push {
    /// `d` is the document of this value: the fields that are not empty,
    /// in declaration order under their written keys, each with its own document.
    pub open spec fn documented_by(&self, d: Doc) -> bool {
        &&& d is Fields
        &&& keys_of(d) == opt_key(self.branches@.len() > 0, "branches"@)
            + opt_key(self.tags@.len() > 0, "tags"@)
            + opt_key(self.branches_ignore@.len() > 0, "branches-ignore"@)
            + opt_key(self.tags_ignore@.len() > 0, "tags-ignore"@)
            + opt_key(self.paths@.len() > 0, "paths"@)
            + opt_key(self.paths_ignore@.len() > 0, "paths-ignore"@)
            + opt_key(self.types@.len() > 0, "types"@)
        &&& self.documents_part_0(entries_of(d))
    }

    /// Each of `branches`, `tags`, `branches-ignore`, `tags-ignore`, `paths`, `paths-ignore`, `types` that is not empty stands in `fs` with its document.
    pub open spec fn documents_part_0(&self, fs: Seq<(String, Doc)>) -> bool {
        &&& self.branches@.len() > 0 ==> holds_in(fs, "branches"@, |c: Doc| is_texts(c, self.branches@))
        &&& self.tags@.len() > 0 ==> holds_in(fs, "tags"@, |c: Doc| is_texts(c, self.tags@))
        &&& self.branches_ignore@.len() > 0 ==> holds_in(fs, "branches-ignore"@, |c: Doc| is_texts(c, self.branches_ignore@))
        &&& self.tags_ignore@.len() > 0 ==> holds_in(fs, "tags-ignore"@, |c: Doc| is_texts(c, self.tags_ignore@))
        &&& self.paths@.len() > 0 ==> holds_in(fs, "paths"@, |c: Doc| is_texts(c, self.paths@))
        &&& self.paths_ignore@.len() > 0 ==> holds_in(fs, "paths-ignore"@, |c: Doc| is_texts(c, self.paths_ignore@))
        &&& self.types@.len() > 0 ==> holds_in(fs, "types"@, |c: Doc| is_texts(c, self.types@))
    }

    proof fn lemma_part_0_kept(&self, a: Seq<(String, Doc)>, b: Seq<(String, Doc)>)
        requires
            self.documents_part_0(a),
            b.len() >= a.len(),
            forall|i: int| 0 <= i < a.len() ==> #[trigger] b[i] == a[i],
        ensures
            self.documents_part_0(b),
    {
        if self.branches@.len() > 0 {
            let i = choose|i: int| 0 <= i < a.len() && a[i].0@ == "branches"@ && is_texts(a[i].1, self.branches@);
            assert(b[i] == a[i]);
        }
        if self.tags@.len() > 0 {
            let i = choose|i: int| 0 <= i < a.len() && a[i].0@ == "tags"@ && is_texts(a[i].1, self.tags@);
            assert(b[i] == a[i]);
        }
        if self.branches_ignore@.len() > 0 {
            let i = choose|i: int| 0 <= i < a.len() && a[i].0@ == "branches-ignore"@ && is_texts(a[i].1, self.branches_ignore@);
            assert(b[i] == a[i]);
        }
        if self.tags_ignore@.len() > 0 {
            let i = choose|i: int| 0 <= i < a.len() && a[i].0@ == "tags-ignore"@ && is_texts(a[i].1, self.tags_ignore@);
            assert(b[i] == a[i]);
        }
        if self.paths@.len() > 0 {
            let i = choose|i: int| 0 <= i < a.len() && a[i].0@ == "paths"@ && is_texts(a[i].1, self.paths@);
            assert(b[i] == a[i]);
        }
        if self.paths_ignore@.len() > 0 {
            let i = choose|i: int| 0 <= i < a.len() && a[i].0@ == "paths-ignore"@ && is_texts(a[i].1, self.paths_ignore@);
            assert(b[i] == a[i]);
        }
        if self.types@.len() > 0 {
            let i = choose|i: int| 0 <= i < a.len() && a[i].0@ == "types"@ && is_texts(a[i].1, self.types@);
            assert(b[i] == a[i]);
        }
    }

    #[verifier::spinoff_prover]
    #[verifier::rlimit(100)]
    fn push_doc_fields_0(&self, fs: &mut Vec<(String, Doc)>)
        ensures
            entry_keys(final(fs)@) == entry_keys(old(fs)@) + opt_key(self.branches@.len() > 0, "branches"@)
                + opt_key(self.tags@.len() > 0, "tags"@)
                + opt_key(self.branches_ignore@.len() > 0, "branches-ignore"@)
                + opt_key(self.tags_ignore@.len() > 0, "tags-ignore"@)
                + opt_key(self.paths@.len() > 0, "paths"@)
                + opt_key(self.paths_ignore@.len() > 0, "paths-ignore"@)
                + opt_key(self.types@.len() > 0, "types"@),
            final(fs)@.len() >= old(fs)@.len(),
            forall|i: int| 0 <= i < old(fs)@.len() ==> #[trigger] final(fs)@[i] == old(fs)@[i],
            self.documents_part_0(final(fs)@),
    {
        // Each value is built whether or not its field is written; `push_opt`
        // drops the ones that are left out.
        let ghost at0: int = fs@.len() as int;
        let w0 = self.branches.len() > 0;
        let c0 = Doc::Texts(copy_texts(&self.branches));
        push_opt(fs, w0, "branches", c0);
        let ghost at1: int = fs@.len() as int;
        let w1 = self.tags.len() > 0;
        let c1 = Doc::Texts(copy_texts(&self.tags));
        push_opt(fs, w1, "tags", c1);
        let ghost at2: int = fs@.len() as int;
        let w2 = self.branches_ignore.len() > 0;
        let c2 = Doc::Texts(copy_texts(&self.branches_ignore));
        push_opt(fs, w2, "branches-ignore", c2);
        let ghost at3: int = fs@.len() as int;
        let w3 = self.tags_ignore.len() > 0;
        let c3 = Doc::Texts(copy_texts(&self.tags_ignore));
        push_opt(fs, w3, "tags-ignore", c3);
        let ghost at4: int = fs@.len() as int;
        let w4 = self.paths.len() > 0;
        let c4 = Doc::Texts(copy_texts(&self.paths));
        push_opt(fs, w4, "paths", c4);
        let ghost at5: int = fs@.len() as int;
        let w5 = self.paths_ignore.len() > 0;
        let c5 = Doc::Texts(copy_texts(&self.paths_ignore));
        push_opt(fs, w5, "paths-ignore", c5);
        let ghost at6: int = fs@.len() as int;
        let w6 = self.types.len() > 0;
        let c6 = Doc::Texts(copy_texts(&self.types));
        push_opt(fs, w6, "types", c6);
        proof {
            if self.branches@.len() > 0 {
                assert(fs@[at0].0@ == "branches"@);
                assert(is_texts(fs@[at0].1, self.branches@));
            }
            if self.tags@.len() > 0 {
                assert(fs@[at1].0@ == "tags"@);
                assert(is_texts(fs@[at1].1, self.tags@));
            }
            if self.branches_ignore@.len() > 0 {
                assert(fs@[at2].0@ == "branches-ignore"@);
                assert(is_texts(fs@[at2].1, self.branches_ignore@));
            }
            if self.tags_ignore@.len() > 0 {
                assert(fs@[at3].0@ == "tags-ignore"@);
                assert(is_texts(fs@[at3].1, self.tags_ignore@));
            }
            if self.paths@.len() > 0 {
                assert(fs@[at4].0@ == "paths"@);
                assert(is_texts(fs@[at4].1, self.paths@));
            }
            if self.paths_ignore@.len() > 0 {
                assert(fs@[at5].0@ == "paths-ignore"@);
                assert(is_texts(fs@[at5].1, self.paths_ignore@));
            }
            if self.types@.len() > 0 {
                assert(fs@[at6].0@ == "types"@);
                assert(is_texts(fs@[at6].1, self.types@));
            }
        }
    }

    /// The document of this value.
    #[verifier::spinoff_prover]
    #[verifier::rlimit(100)]
    pub fn to_doc(&self) -> (r: Doc)
        ensures
            self.documented_by(r),
    {
        let mut fs: Vec<(String, Doc)> = Vec::new();
        assert(entry_keys(fs@) =~= Seq::<Seq<char>>::empty());
        let ghost before0 = fs@;
        self.push_doc_fields_0(&mut fs);
        assert(entry_keys(fs@) =~= opt_key(self.branches@.len() > 0, "branches"@)
            + opt_key(self.tags@.len() > 0, "tags"@)
            + opt_key(self.branches_ignore@.len() > 0, "branches-ignore"@)
            + opt_key(self.tags_ignore@.len() > 0, "tags-ignore"@)
            + opt_key(self.paths@.len() > 0, "paths"@)
            + opt_key(self.paths_ignore@.len() > 0, "paths-ignore"@)
            + opt_key(self.types@.len() > 0, "types"@));
        proof {
        }
        Doc::Fields(fs)
    }
}

/// The cron expressions of the schedule trigger.
#[derive(Debug, Clone)]
pub struct Schedule {
    pub cron: Vec<String>,
    pub types: Vec<String>,
}

impl Schedule {
    /// The keyed fields are in order.
    pub open spec fn wf(&self) -> bool {
        true
    }

    /// Every field is at its starting value.
    pub open spec fn is_blank(&self) -> bool {
        self.cron@.len() == 0
        && self.types@.len() == 0
    }

    /// No field would be written out.
    pub open spec fn is_empty_spec(&self) -> bool {
        self.cron@.len() == 0
        && self.types@.len() == 0
    }

    /// Whether no field would be written out.
    pub fn is_empty(&self) -> (r: bool)
        ensures
            r == self.is_empty_spec(),
    {
        self.cron.len() == 0
            && self.types.len() == 0
    }

    /// A value with every field at its starting value.
    pub fn new() -> (r: Schedule)
        ensures
            r.is_blank(),
            r.wf(),
    {
        Schedule {
            cron: Vec::new(),
            types: Vec::new(),
        }
    }

    /// Starts a builder with every field at its starting value.
    pub fn builder() -> (r: ScheduleBuilder)
        ensures
            r.staged().is_blank(),
            r.staged().wf(),
    {
        ScheduleBuilder { staged: Schedule::new() }
    }
}

impl Default for Schedule {
    fn default() -> (r: Self)
        ensures
            r.is_blank(),
    {
        Schedule::new()
    }
}

/// Stages a [`Schedule`]: lists only grow at their end, keyed fields take
/// the last value set under a key, and `build` hands out the result.
pub struct ScheduleBuilder {
    staged: Schedule,
}

impl ScheduleBuilder {
    /// What `build` would hand out now.
    pub closed spec fn staged(&self) -> Schedule {
        self.staged
    }

    pub fn build(self) -> (r: Schedule)
        ensures
            r == self.staged(),
    {
        self.staged
    }

    /// Appends `value` to `cron`.
    pub fn cron(self, value: &str) -> (r: ScheduleBuilder)
        ensures
            texts(r.staged().cron@) == texts(self.staged().cron@).push(value@),
            (r.staged() == (Schedule { cron: r.staged().cron, ..self.staged() })),
    {
        let mut b = self;
        push_text(&mut b.staged.cron, value);
        b
    }

    /// Appends `value` to `types`.
    pub fn event_type(self, value: &str) -> (r: ScheduleBuilder)
        ensures
            texts(r.staged().types@) == texts(self.staged().types@).push(value@),
            (r.staged() == (Schedule { types: r.staged().types, ..self.staged() })),
    {
        let mut b = self;
        push_text(&mut b.staged.types, value);
        b
    }

}

impl Schedule {
    /// `d` is the document of this value: the fields that are not empty,
    /// in declaration order under their written keys, each with its own document.
    pub open spec fn documented_by(&self, d: Doc) -> bool {
        &&& d is Fields
        &&& keys_of(d) == opt_key(self.cron@.len() > 0, "cron"@)
            + opt_key(self.types@.len() > 0, "types"@)
        &&& self.documents_part_0(entries_of(d))
    }

    /// Each of `cron`, `types` that is not empty stands in `fs` with its document.
    pub open spec fn documents_part_0(&self, fs: Seq<(String, Doc)>) -> bool {
        &&& self.cron@.len() > 0 ==> holds_in(fs, "cron"@, |c: Doc| is_texts(c, self.cron@))
        &&& self.types@.len() > 0 ==> holds_in(fs, "types"@, |c: Doc| is_texts(c, self.types@))
    }

    proof fn lemma_part_0_kept(&self, a: Seq<(String, Doc)>, b: Seq<(String, Doc)>)
        requires
            self.documents_part_0(a),
            b.len() >= a.len(),
            forall|i: int| 0 <= i < a.len() ==> #[trigger] b[i] == a[i],
        ensures
            self.documents_part_0(b),
    {
        if self.cron@.len() > 0 {
            let i = choose|i: int| 0 <= i < a.len() && a[i].0@ == "cron"@ && is_texts(a[i].1, self.cron@);
            assert(b[i] == a[i]);
        }
        if self.types@.len() > 0 {
            let i = choose|i: int| 0 <= i < a.len() && a[i].0@ == "types"@ && is_texts(a[i].1, self.types@);
            assert(b[i] == a[i]);
        }
    }

    #[verifier::spinoff_prover]
    #[verifier::rlimit(100)]
    fn push_doc_fields_0(&self, fs: &mut Vec<(String, Doc)>)
        ensures
            entry_keys(final(fs)@) == entry_keys(old(fs)@) + opt_key(self.cron@.len() > 0, "cron"@)
                + opt_key(self.types@.len() > 0, "types"@),
            final(fs)@.len() >= old(fs)@.len(),
            forall|i: int| 0 <= i < old(fs)@.len() ==> #[trigger] final(fs)@[i] == old(fs)@[i],
            self.documents_part_0(final(fs)@),
    {
        // Each value is built whether or not its field is written; `push_opt`
        // drops the ones that are left out.
        let ghost at0: int = fs@.len() as int;
        let w0 = self.cron.len() > 0;
        let c0 = Doc::Texts(copy_texts(&self.cron));
        push_opt(fs, w0, "cron", c0);
        let ghost at1: int = fs@.len() as int;
        let w1 = self.types.len() > 0;
        let c1 = Doc::Texts(copy_texts(&self.types));
        push_opt(fs, w1, "types", c1);
        proof {
            if self.cron@.len() > 0 {
                assert(fs@[at0].0@ == "cron"@);
                assert(is_texts(fs@[at0].1, self.cron@));
            }
            if self.types@.len() > 0 {
                assert(fs@[at1].0@ == "types"@);
                assert(is_texts(fs@[at1].1, self.types@));
            }
        }
    }

    /// The document of this value.
    #[verifier::spinoff_prover]
    #[verifier::rlimit(100)]
    pub fn to_doc(&self) -> (r: Doc)
        ensures
            self.documented_by(r),
    {
        let mut fs: Vec<(String, Doc)> = Vec::new();
        assert(entry_keys(fs@) =~= Seq::<Seq<char>>::empty());
        let ghost before0 = fs@;
        self.push_doc_fields_0(&mut fs);
        assert(entry_keys(fs@) =~= opt_key(self.cron@.len() > 0, "cron"@)
            + opt_key(self.types@.len() > 0, "types"@));
        proof {
        }
        Doc::Fields(fs)
    }
}

/// One input of a reusable or manually dispatched workflow.
#[derive(Debug, Clone)]
pub struct Input {
    pub description: Option<String>,
    pub default: Option<Value>,
    pub required: bool,
    pub kind: Option<String>,
}

impl Input {
    /// The keyed fields are in order.
    pub open spec fn wf(&self) -> bool {
        true
    }

    /// Every field is at its starting value.
    pub open spec fn is_blank(&self) -> bool {
        self.description is None
        && self.default is None
        && !self.required
        && self.kind is None
    }

    /// A value with every field at its starting value.
    pub fn new() -> (r: Input)
        ensures
            r.is_blank(),
            r.wf(),
    {
        Input {
            description: Option::None,
            default: Option::None,
            required: false,
            kind: Option::None,
        }
    }

    /// Starts a builder with every field at its starting value.
    pub fn builder() -> (r: InputBuilder)
        ensures
            r.staged().is_blank(),
            r.staged().wf(),
    {
        InputBuilder { staged: Input::new() }
    }
}

impl Default for Input {
    fn default() -> (r: Self)
        ensures
            r.is_blank(),
    {
        Input::new()
    }
}

/// Stages a [`Input`]: lists only grow at their end, keyed fields take
/// the last value set under a key, and `build` hands out the result.
pub struct InputBuilder {
    staged: Input,
}

impl InputBuilder {
    /// What `build` would hand out now.
    pub closed spec fn staged(&self) -> Input {
        self.staged
    }

    pub fn build(self) -> (r: Input)
        ensures
            r == self.staged(),
    {
        self.staged
    }

    /// Sets `description`.
    pub fn description(self, value: &str) -> (r: InputBuilder)
        ensures
            r.staged().description is Some,
            r.staged().description->Some_0@ == value@,
            (r.staged() == (Input { description: r.staged().description, ..self.staged() })),
    {
        let mut b = self;
        b.staged.description = Option::Some(value.to_owned());
        b
    }

    /// Sets `default`.
    pub fn default_value(self, value: Value) -> (r: InputBuilder)
        ensures
            r.staged().default == Option::Some(value),
            (r.staged() == (Input { default: r.staged().default, ..self.staged() })),
    {
        let mut b = self;
        b.staged.default = Option::Some(value);
        b
    }

    /// Sets `required`.
    pub fn required(self, value: bool) -> (r: InputBuilder)
        ensures
            r.staged().required == value,
            (r.staged() == (Input { required: r.staged().required, ..self.staged() })),
    {
        let mut b = self;
        b.staged.required = value;
        b
    }

    /// Sets `kind`.
    pub fn kind(self, value: &str) -> (r: InputBuilder)
        ensures
            r.staged().kind is Some,
            r.staged().kind->Some_0@ == value@,
            (r.staged() == (Input { kind: r.staged().kind, ..self.staged() })),
    {
        let mut b = self;
        b.staged.kind = Option::Some(value.to_owned());
        b
    }

}

impl Input {
    /// `d` is the document of this value: the fields that are not empty,
    /// in declaration order under their written keys, each with its own document.
    pub open spec fn documented_by(&self, d: Doc) -> bool {
        &&& d is Fields
        &&& keys_of(d) == opt_key(self.description is Some, "description"@)
            + opt_key(self.default is Some, "default"@)
            + opt_key(true, "required"@)
            + opt_key(self.kind is Some, "type"@)
        &&& self.documents_part_0(entries_of(d))
    }

    /// Each of `description`, `default`, `required`, `type` that is not empty stands in `fs` with its document.
    pub open spec fn documents_part_0(&self, fs: Seq<(String, Doc)>) -> bool {
        &&& self.description is Some ==> holds_in(fs, "description"@, |c: Doc| is_text(c, self.description->Some_0@))
        &&& self.default is Some ==> holds_in(fs, "default"@, |c: Doc| c == Doc::Data(self.default->Some_0))
        &&& true ==> holds_in(fs, "required"@, |c: Doc| c == Doc::Flag(self.required))
        &&& self.kind is Some ==> holds_in(fs, "type"@, |c: Doc| is_text(c, self.kind->Some_0@))
    }

    proof fn lemma_part_0_kept(&self, a: Seq<(String, Doc)>, b: Seq<(String, Doc)>)
        requires
            self.documents_part_0(a),
            b.len() >= a.len(),
            forall|i: int| 0 <= i < a.len() ==> #[trigger] b[i] == a[i],
        ensures
            self.documents_part_0(b),
    {
        if self.description is Some {
            let i = choose|i: int| 0 <= i < a.len() && a[i].0@ == "description"@ && is_text(a[i].1, self.description->Some_0@);
            assert(b[i] == a[i]);
        }
        if self.default is Some {
            let i = choose|i: int| 0 <= i < a.len() && a[i].0@ == "default"@ && a[i].1 == Doc::Data(self.default->Some_0);
            assert(b[i] == a[i]);
        }
        if true {
            let i = choose|i: int| 0 <= i < a.len() && a[i].0@ == "required"@ && a[i].1 == Doc::Flag(self.required);
            assert(b[i] == a[i]);
        }
        if self.kind is Some {
            let i = choose|i: int| 0 <= i < a.len() && a[i].0@ == "type"@ && is_text(a[i].1, self.kind->Some_0@);
            assert(b[i] == a[i]);
        }
    }

    #[verifier::spinoff_prover]
    #[verifier::rlimit(100)]
    fn push_doc_fields_0(&self, fs: &mut Vec<(String, Doc)>)
        ensures
            entry_keys(final(fs)@) == entry_keys(old(fs)@) + opt_key(self.description is Some, "description"@)
                + opt_key(self.default is Some, "default"@)
                + opt_key(true, "required"@)
                + opt_key(self.kind is Some, "type"@),
            final(fs)@.len() >= old(fs)@.len(),
            forall|i: int| 0 <= i < old(fs)@.len() ==> #[trigger] final(fs)@[i] == old(fs)@[i],
            self.documents_part_0(final(fs)@),
    {
        // Each value is built whether or not its field is written; `push_opt`
        // drops the ones that are left out.
        let ghost at0: int = fs@.len() as int;
        let w0 = self.description.is_some();
        let c0 = match &self.description { Option::Some(x) => Doc::Text(x.clone()), Option::None => Doc::Flag(false) };
        push_opt(fs, w0, "description", c0);
        let ghost at1: int = fs@.len() as int;
        let w1 = self.default.is_some();
        let c1 = match &self.default { Option::Some(x) => Doc::Data(x.clone()), Option::None => Doc::Flag(false) };
        push_opt(fs, w1, "default", c1);
        let ghost at2: int = fs@.len() as int;
        let w2 = true;
        let c2 = Doc::Flag(self.required);
        push_opt(fs, w2, "required", c2);
        let ghost at3: int = fs@.len() as int;
        let w3 = self.kind.is_some();
        let c3 = match &self.kind { Option::Some(x) => Doc::Text(x.clone()), Option::None => Doc::Flag(false) };
        push_opt(fs, w3, "type", c3);
        proof {
            if self.description is Some {
                assert(fs@[at0].0@ == "description"@);
                assert(is_text(fs@[at0].1, self.description->Some_0@));
            }
            if self.default is Some {
                assert(fs@[at1].0@ == "default"@);
                assert(fs@[at1].1 == Doc::Data(self.default->Some_0));
            }
            if true {
                assert(fs@[at2].0@ == "required"@);
                assert(fs@[at2].1 == Doc::Flag(self.required));
            }
            if self.kind is Some {
                assert(fs@[at3].0@ == "type"@);
                assert(is_text(fs@[at3].1, self.kind->Some_0@));
            }
        }
    }

    /// The document of this value.
    #[verifier::spinoff_prover]
    #[verifier::rlimit(100)]
    pub fn to_doc(&self) -> (r: Doc)
        ensures
            self.documented_by(r),
    {
        let mut fs: Vec<(String, Doc)> = Vec::new();
        assert(entry_keys(fs@) =~= Seq::<Seq<char>>::empty());
        let ghost before0 = fs@;
        self.push_doc_fields_0(&mut fs);
        assert(entry_keys(fs@) =~= opt_key(self.description is Some, "description"@)
            + opt_key(self.default is Some, "default"@)
            + opt_key(true, "required"@)
            + opt_key(self.kind is Some, "type"@));
        proof {
        }
        Doc::Fields(fs)
    }
}

/// One output of a reusable workflow.
#[derive(Debug, Clone)]
pub struct Output {
    pub description: Option<String>,
    pub default: Option<Value>,
    pub required: bool,
    pub kind: Option<String>,
}

impl Output {
    /// The keyed fields are in order.
    pub open spec fn wf(&self) -> bool {
        true
    }

    /// Every field is at its starting value.
    pub open spec fn is_blank(&self) -> bool {
        self.description is None
        && self.default is None
        && !self.required
        && self.kind is None
    }

    /// A value with every field at its starting value.
    pub fn new() -> (r: Output)
        ensures
            r.is_blank(),
            r.wf(),
    {
        Output {
            description: Option::None,
            default: Option::None,
            required: false,
            kind: Option::None,
        }
    }

    /// Starts a builder with every field at its starting value.
    pub fn builder() -> (r: OutputBuilder)
        ensures
            r.staged().is_blank(),
            r.staged().wf(),
    {
        OutputBuilder { staged: Output::new() }
    }
}

impl Default for Output {
    fn default() -> (r: Self)
        ensures
            r.is_blank(),
    {
        Output::new()
    }
}

/// Stages a [`Output`]: lists only grow at their end, keyed fields take
/// the last value set under a key, and `build` hands out the result.
pub struct OutputBuilder {
    staged: Output,
}

impl OutputBuilder {
    /// What `build` would hand out now.
    pub closed spec fn staged(&self) -> Output {
        self.staged
    }

    pub fn build(self) -> (r: Output)
        ensures
            r == self.staged(),
    {
        self.staged
    }

    /// Sets `description`.
    pub fn description(self, value: &str) -> (r: OutputBuilder)
        ensures
            r.staged().description is Some,
            r.staged().description->Some_0@ == value@,
            (r.staged() == (Output { description: r.staged().description, ..self.staged() })),
    {
        let mut b = self;
        b.staged.description = Option::Some(value.to_owned());
        b
    }

    /// Sets `default`.
    pub fn default_value(self, value: Value) -> (r: OutputBuilder)
        ensures
            r.staged().default == Option::Some(value),
            (r.staged() == (Output { default: r.staged().default, ..self.staged() })),
    {
        let mut b = self;
        b.staged.default = Option::Some(value);
        b
    }

    /// Sets `required`.
    pub fn required(self, value: bool) -> (r: OutputBuilder)
        ensures
            r.staged().required == value,
            (r.staged() == (Output { required: r.staged().required, ..self.staged() })),
    {
        let mut b = self;
        b.staged.required = value;
        b
    }

    /// Sets `kind`.
    pub fn kind(self, value: &str) -> (r: OutputBuilder)
        ensures
            r.staged().kind is Some,
            r.staged().kind->Some_0@ == value@,
            (r.staged() == (Output { kind: r.staged().kind, ..self.staged() })),
    {
        let mut b = self;
        b.staged.kind = Option::Some(value.to_owned());
        b
    }

}

impl Output {
    /// `d` is the document of this value: the fields that are not empty,
    /// in declaration order under their written keys, each with its own document.
    pub open spec fn documented_by(&self, d: Doc) -> bool {
        &&& d is Fields
        &&& keys_of(d) == opt_key(self.description is Some, "description"@)
            + opt_key(self.default is Some, "default"@)
            + opt_key(true, "required"@)
            + opt_key(self.kind is Some, "type"@)
        &&& self.documents_part_0(entries_of(d))
    }

    /// Each of `description`, `default`, `required`, `type` that is not empty stands in `fs` with its document.
    pub open spec fn documents_part_0(&self, fs: Seq<(String, Doc)>) -> bool {
        &&& self.description is Some ==> holds_in(fs, "description"@, |c: Doc| is_text(c, self.description->Some_0@))
        &&& self.default is Some ==> holds_in(fs, "default"@, |c: Doc| c == Doc::Data(self.default->Some_0))
        &&& true ==> holds_in(fs, "required"@, |c: Doc| c == Doc::Flag(self.required))
        &&& self.kind is Some ==> holds_in(fs, "type"@, |c: Doc| is_text(c, self.kind->Some_0@))
    }

    proof fn lemma_part_0_kept(&self, a: Seq<(String, Doc)>, b: Seq<(String, Doc)>)
        requires
            self.documents_part_0(a),
            b.len() >= a.len(),
            forall|i: int| 0 <= i < a.len() ==> #[trigger] b[i] == a[i],
        ensures
            self.documents_part_0(b),
    {
        if self.description is Some {
            let i = choose|i: int| 0 <= i < a.len() && a[i].0@ == "description"@ && is_text(a[i].1, self.description->Some_0@);
            assert(b[i] == a[i]);
        }
        if self.default is Some {
            let i = choose|i: int| 0 <= i < a.len() && a[i].0@ == "default"@ && a[i].1 == Doc::Data(self.default->Some_0);
            assert(b[i] == a[i]);
        }
        if true {
            let i = choose|i: int| 0 <= i < a.len() && a[i].0@ == "required"@ && a[i].1 == Doc::Flag(self.required);
            assert(b[i] == a[i]);
        }
        if self.kind is Some {
            let i = choose|i: int| 0 <= i < a.len() && a[i].0@ == "type"@ && is_text(a[i].1, self.kind->Some_0@);
            assert(b[i] == a[i]);
        }
    }

    #[verifier::spinoff_prover]
    #[verifier::rlimit(100)]
    fn push_doc_fields_0(&self, fs: &mut Vec<(String, Doc)>)
        ensures
            entry_keys(final(fs)@) == entry_keys(old(fs)@) + opt_key(self.description is Some, "description"@)
                + opt_key(self.default is Some, "default"@)
                + opt_key(true, "required"@)
                + opt_key(self.kind is Some, "type"@),
            final(fs)@.len() >= old(fs)@.len(),
            forall|i: int| 0 <= i < old(fs)@.len() ==> #[trigger] final(fs)@[i] == old(fs)@[i],
            self.documents_part_0(final(fs)@),
    {
        // Each value is built whether or not its field is written; `push_opt`
        // drops the ones that are left out.
        let ghost at0: int = fs@.len() as int;
        let w0 = self.description.is_some();
        let c0 = match &self.description { Option::Some(x) => Doc::Text(x.clone()), Option::None => Doc::Flag(false) };
        push_opt(fs, w0, "description", c0);
        let ghost at1: int = fs@.len() as int;
        let w1 = self.default.is_some();
        let c1 = match &self.default { Option::Some(x) => Doc::Data(x.clone()), Option::None => Doc::Flag(false) };
        push_opt(fs, w1, "default", c1);
        let ghost at2: int = fs@.len() as int;
        let w2 = true;
        let c2 = Doc::Flag(self.required);
        push_opt(fs, w2, "required", c2);
        let ghost at3: int = fs@.len() as int;
        let w3 = self.kind.is_some();
        let c3 = match &self.kind { Option::Some(x) => Doc::Text(x.clone()), Option::None => Doc::Flag(false) };
        push_opt(fs, w3, "type", c3);
        proof {
            if self.description is Some {
                assert(fs@[at0].0@ == "description"@);
                assert(is_text(fs@[at0].1, self.description->Some_0@));
            }
            if self.default is Some {
                assert(fs@[at1].0@ == "default"@);
                assert(fs@[at1].1 == Doc::Data(self.default->Some_0));
            }
            if true {
                assert(fs@[at2].0@ == "required"@);
                assert(fs@[at2].1 == Doc::Flag(self.required));
            }
            if self.kind is Some {
                assert(fs@[at3].0@ == "type"@);
                assert(is_text(fs@[at3].1, self.kind->Some_0@));
            }
        }
    }

    /// The document of this value.
    #[verifier::spinoff_prover]
    #[verifier::rlimit(100)]
    pub fn to_doc(&self) -> (r: Doc)
        ensures
            self.documented_by(r),
    {
        let mut fs: Vec<(String, Doc)> = Vec::new();
        assert(entry_keys(fs@) =~= Seq::<Seq<char>>::empty());
        let ghost before0 = fs@;
        self.push_doc_fields_0(&mut fs);
        assert(entry_keys(fs@) =~= opt_key(self.description is Some, "description"@)
            + opt_key(self.default is Some, "default"@)
            + opt_key(true, "required"@)
            + opt_key(self.kind is Some, "type"@));
        proof {
        }
        Doc::Fields(fs)
    }
}

/// One secret of a reusable workflow.
#[derive(Debug, Clone)]
pub struct Secret {
    pub description: Option<Value>,
    pub required: Option<Value>,
}

impl Secret {
    /// The keyed fields are in order.
    pub open spec fn wf(&self) -> bool {
        true
    }

    /// Every field is at its starting value.
    pub open spec fn is_blank(&self) -> bool {
        self.description is None
        && self.required is None
    }

    /// No field would be written out.
    pub open spec fn is_empty_spec(&self) -> bool {
        self.description is None
        && self.required is None
    }

    /// Whether no field would be written out.
    pub fn is_empty(&self) -> (r: bool)
        ensures
            r == self.is_empty_spec(),
    {
        self.description.is_none()
            && self.required.is_none()
    }

    /// A value with every field at its starting value.
    pub fn new() -> (r: Secret)
        ensures
            r.is_blank(),
            r.wf(),
    {
        Secret {
            description: Option::None,
            required: Option::None,
        }
    }

    /// Starts a builder with every field at its starting value.
    pub fn builder() -> (r: SecretBuilder)
        ensures
            r.staged().is_blank(),
            r.staged().wf(),
    {
        SecretBuilder { staged: Secret::new() }
    }
}

impl Default for Secret {
    fn default() -> (r: Self)
        ensures
            r.is_blank(),
    {
        Secret::new()
    }
}

/// Stages a [`Secret`]: lists only grow at their end, keyed fields take
/// the last value set under a key, and `build` hands out the result.
pub struct SecretBuilder {
    staged: Secret,
}

impl SecretBuilder {
    /// What `build` would hand out now.
    pub closed spec fn staged(&self) -> Secret {
        self.staged
    }

    pub fn build(self) -> (r: Secret)
        ensures
            r == self.staged(),
    {
        self.staged
    }

    /// Sets `description`.
    pub fn description(self, value: Value) -> (r: SecretBuilder)
        ensures
            r.staged().description == Option::Some(value),
            (r.staged() == (Secret { description: r.staged().description, ..self.staged() })),
    {
        let mut b = self;
        b.staged.description = Option::Some(value);
        b
    }

    /// Sets `required`.
    pub fn required(self, value: Value) -> (r: SecretBuilder)
        ensures
            r.staged().required == Option::Some(value),
            (r.staged() == (Secret { required: r.staged().required, ..self.staged() })),
    {
        let mut b = self;
        b.staged.required = Option::Some(value);
        b
    }

}

impl Secret {
    /// `d` is the document of this value: the fields that are not empty,
    /// in declaration order under their written keys, each with its own document.
    pub open spec fn documented_by(&self, d: Doc) -> bool {
        &&& d is Fields
        &&& keys_of(d) == opt_key(self.description is Some, "description"@)
            + opt_key(self.required is Some, "required"@)
        &&& self.documents_part_0(entries_of(d))
    }

    /// Each of `description`, `required` that is not empty stands in `fs` with its document.
    pub open spec fn documents_part_0(&self, fs: Seq<(String, Doc)>) -> bool {
        &&& self.description is Some ==> holds_in(fs, "description"@, |c: Doc| c == Doc::Data(self.description->Some_0))
        &&& self.required is Some ==> holds_in(fs, "required"@, |c: Doc| c == Doc::Data(self.required->Some_0))
    }

    proof fn lemma_part_0_kept(&self, a: Seq<(String, Doc)>, b: Seq<(String, Doc)>)
        requires
            self.documents_part_0(a),
            b.len() >= a.len(),
            forall|i: int| 0 <= i < a.len() ==> #[trigger] b[i] == a[i],
        ensures
            self.documents_part_0(b),
    {
        if self.description is Some {
            let i = choose|i: int| 0 <= i < a.len() && a[i].0@ == "description"@ && a[i].1 == Doc::Data(self.description->Some_0);
            assert(b[i] == a[i]);
        }
        if self.required is Some {
            let i = choose|i: int| 0 <= i < a.len() && a[i].0@ == "required"@ && a[i].1 == Doc::Data(self.required->Some_0);
            assert(b[i] == a[i]);
        }
    }

    #[verifier::spinoff_prover]
    #[verifier::rlimit(100)]
    fn push_doc_fields_0(&self, fs: &mut Vec<(String, Doc)>)
        ensures
            entry_keys(final(fs)@) == entry_keys(old(fs)@) + opt_key(self.description is Some, "description"@)
                + opt_key(self.required is Some, "required"@),
            final(fs)@.len() >= old(fs)@.len(),
            forall|i: int| 0 <= i < old(fs)@.len() ==> #[trigger] final(fs)@[i] == old(fs)@[i],
            self.documents_part_0(final(fs)@),
    {
        // Each value is built whether or not its field is written; `push_opt`
        // drops the ones that are left out.
        let ghost at0: int = fs@.len() as int;
        let w0 = self.description.is_some();
        let c0 = match &self.description { Option::Some(x) => Doc::Data(x.clone()), Option::None => Doc::Flag(false) };
        push_opt(fs, w0, "description", c0);
        let ghost at1: int = fs@.len() as int;
        let w1 = self.required.is_some();
        let c1 = match &self.required { Option::Some(x) => Doc::Data(x.clone()), Option::None => Doc::Flag(false) };
        push_opt(fs, w1, "required", c1);
        proof {
            if self.description is Some {
                assert(fs@[at0].0@ == "description"@);
                assert(fs@[at0].1 == Doc::Data(self.description->Some_0));
            }
            if self.required is Some {
                assert(fs@[at1].0@ == "required"@);
                assert(fs@[at1].1 == Doc::Data(self.required->Some_0));
            }
        }
    }

    /// The document of this value.
    #[verifier::spinoff_prover]
    #[verifier::rlimit(100)]
    pub fn to_doc(&self) -> (r: Doc)
        ensures
            self.documented_by(r),
    {
        let mut fs: Vec<(String, Doc)> = Vec::new();
        assert(entry_keys(fs@) =~= Seq::<Seq<char>>::empty());
        let ghost before0 = fs@;
        self.push_doc_fields_0(&mut fs);
        assert(entry_keys(fs@) =~= opt_key(self.description is Some, "description"@)
            + opt_key(self.required is Some, "required"@));
        proof {
        }
        Doc::Fields(fs)
    }
}

/// The trigger that lets other workflows call this one.
#[derive(Debug, Clone)]
pub struct WorkflowCall {
    pub inputs: KeyedMap<Input>,
    pub outputs: KeyedMap<Output>,
    pub secrets: KeyedMap<Secret>,
    pub branches: Vec<String>,
    pub branches_ignore: Vec<String>,
    pub types: Vec<String>,
}

impl WorkflowCall {
    /// The keyed fields are in order.
    pub open spec fn wf(&self) -> bool {
        self.inputs.wf()
        && self.outputs.wf()
        && self.secrets.wf()
    }

    /// Every field is at its starting value.
    pub open spec fn is_blank(&self) -> bool {
        self.inputs.keys().len() == 0
        && self.outputs.keys().len() == 0
        && self.secrets.keys().len() == 0
        && self.branches@.len() == 0
        && self.branches_ignore@.len() == 0
        && self.types@.len() == 0
    }

    /// No field would be written out.
    pub open spec fn is_empty_spec(&self) -> bool {
        self.inputs.keys().len() == 0
        && self.outputs.keys().len() == 0
        && self.secrets.keys().len() == 0
        && self.branches@.len() == 0
        && self.branches_ignore@.len() == 0
        && self.types@.len() == 0
    }

    /// Whether no field would be written out.
    pub fn is_empty(&self) -> (r: bool)
        ensures
            r == self.is_empty_spec(),
    {
        self.inputs.len() == 0
            && self.outputs.len() == 0
            && self.secrets.len() == 0
            && self.branches.len() == 0
            && self.branches_ignore.len() == 0
            && self.types.len() == 0
    }

    /// A value with every field at its starting value.
    pub fn new() -> (r: WorkflowCall)
        ensures
            r.is_blank(),
            r.wf(),
    {
        WorkflowCall {
            inputs: KeyedMap::new(),
            outputs: KeyedMap::new(),
            secrets: KeyedMap::new(),
            branches: Vec::new(),
            branches_ignore: Vec::new(),
            types: Vec::new(),
        }
    }

    /// Starts a builder with every field at its starting value.
    pub fn builder() -> (r: WorkflowCallBuilder)
        ensures
            r.staged().is_blank(),
            r.staged().wf(),
    {
        WorkflowCallBuilder { staged: WorkflowCall::new() }
    }
}

impl Default for WorkflowCall {
    fn default() -> (r: Self)
        ensures
            r.is_blank(),
    {
        WorkflowCall::new()
    }
}

/// Stages a [`WorkflowCall`]: lists only grow at their end, keyed fields take
/// the last value set under a key, and `build` hands out the result.
pub struct WorkflowCallBuilder {
    staged: WorkflowCall,
}

impl WorkflowCallBuilder {
    /// What `build` would hand out now.
    pub closed spec fn staged(&self) -> WorkflowCall {
        self.staged
    }

    pub fn build(self) -> (r: WorkflowCall)
        ensures
            r == self.staged(),
    {
        self.staged
    }

    /// Sets `key` to `value` in `inputs`.
    pub fn input(self, key: &str, value: Input) -> (r: WorkflowCallBuilder)
        requires
            self.staged().wf(),
        ensures
            r.staged().wf(),
            r.staged().inputs.view() == self.staged().inputs.view().insert(key@, value),
            (r.staged() == (WorkflowCall { inputs: r.staged().inputs, ..self.staged() })),
    {
        let mut b = self;
        b.staged.inputs.insert(key.to_owned(), value);
        b
    }

    /// Sets `key` to `value` in `outputs`.
    pub fn output(self, key: &str, value: Output) -> (r: WorkflowCallBuilder)
        requires
            self.staged().wf(),
        ensures
            r.staged().wf(),
            r.staged().outputs.view() == self.staged().outputs.view().insert(key@, value),
            (r.staged() == (WorkflowCall { outputs: r.staged().outputs, ..self.staged() })),
    {
        let mut b = self;
        b.staged.outputs.insert(key.to_owned(), value);
        b
    }

    /// Sets `key` to `value` in `secrets`.
    pub fn secret(self, key: &str, value: Secret) -> (r: WorkflowCallBuilder)
        requires
            self.staged().wf(),
        ensures
            r.staged().wf(),
            r.staged().secrets.view() == self.staged().secrets.view().insert(key@, value),
            (r.staged() == (WorkflowCall { secrets: r.staged().secrets, ..self.staged() })),
    {
        let mut b = self;
        b.staged.secrets.insert(key.to_owned(), value);
        b
    }

    /// Appends `value` to `branches`.
    pub fn branch(self, value: &str) -> (r: WorkflowCallBuilder)
        ensures
            texts(r.staged().branches@) == texts(self.staged().branches@).push(value@),
            (r.staged() == (WorkflowCall { branches: r.staged().branches, ..self.staged() })),
    {
        let mut b = self;
        push_text(&mut b.staged.branches, value);
        b
    }

    /// Appends `value` to `branches_ignore`.
    pub fn ignore_branch(self, value: &str) -> (r: WorkflowCallBuilder)
        ensures
            texts(r.staged().branches_ignore@) == texts(self.staged().branches_ignore@).push(value@),
            (r.staged() == (WorkflowCall { branches_ignore: r.staged().branches_ignore, ..self.staged() })),
    {
        let mut b = self;
        push_text(&mut b.staged.branches_ignore, value);
        b
    }

    /// Appends `value` to `types`.
    pub fn event_type(self, value: &str) -> (r: WorkflowCallBuilder)
        ensures
            texts(r.staged().types@) == texts(self.staged().types@).push(value@),
            (r.staged() == (WorkflowCall { types: r.staged().types, ..self.staged() })),
    {
        let mut b = self;
        push_text(&mut b.staged.types, value);
        b
    }

}

impl WorkflowCall {
    /// `d` is the document of this value: the fields that are not empty,
    /// in declaration order under their written keys, each with its own document.
    pub open spec fn documented_by(&self, d: Doc) -> bool {
        &&& d is Fields
        &&& keys_of(d) == opt_key(self.inputs.keys().len() > 0, "inputs"@)
            + opt_key(self.outputs.keys().len() > 0, "outputs"@)
            + opt_key(self.secrets.keys().len() > 0, "secrets"@)
            + opt_key(self.branches@.len() > 0, "branches"@)
            + opt_key(self.branches_ignore@.len() > 0, "branches-ignore"@)
            + opt_key(self.types@.len() > 0, "types"@)
        &&& self.documents_part_0(entries_of(d))
    }

    /// Each of `inputs`, `outputs`, `secrets`, `branches`, `branches-ignore`, `types` that is not empty stands in `fs` with its document.
    pub open spec fn documents_part_0(&self, fs: Seq<(String, Doc)>) -> bool {
        &&& self.inputs.keys().len() > 0 ==> holds_in(fs, "inputs"@, |c: Doc| (c is Fields && keys_of(c) == self.inputs.keys() && entries_of(c).len() == self.inputs.values().len() && forall|j: int| 0 <= j < entries_of(c).len() ==> #[trigger] self.inputs.values()[j].documented_by(entries_of(c)[j].1)))
        &&& self.outputs.keys().len() > 0 ==> holds_in(fs, "outputs"@, |c: Doc| (c is Fields && keys_of(c) == self.outputs.keys() && entries_of(c).len() == self.outputs.values().len() && forall|j: int| 0 <= j < entries_of(c).len() ==> #[trigger] self.outputs.values()[j].documented_by(entries_of(c)[j].1)))
        &&& self.secrets.keys().len() > 0 ==> holds_in(fs, "secrets"@, |c: Doc| (c is Fields && keys_of(c) == self.secrets.keys() && entries_of(c).len() == self.secrets.values().len() && forall|j: int| 0 <= j < entries_of(c).len() ==> #[trigger] self.secrets.values()[j].documented_by(entries_of(c)[j].1)))
        &&& self.branches@.len() > 0 ==> holds_in(fs, "branches"@, |c: Doc| is_texts(c, self.branches@))
        &&& self.branches_ignore@.len() > 0 ==> holds_in(fs, "branches-ignore"@, |c: Doc| is_texts(c, self.branches_ignore@))
        &&& self.types@.len() > 0 ==> holds_in(fs, "types"@, |c: Doc| is_texts(c, self.types@))
    }

    proof fn lemma_part_0_kept(&self, a: Seq<(String, Doc)>, b: Seq<(String, Doc)>)
        requires
            self.documents_part_0(a),
            b.len() >= a.len(),
            forall|i: int| 0 <= i < a.len() ==> #[trigger] b[i] == a[i],
        ensures
            self.documents_part_0(b),
    {
        if self.inputs.keys().len() > 0 {
            let i = choose|i: int| 0 <= i < a.len() && a[i].0@ == "inputs"@ && (a[i].1 is Fields && keys_of(a[i].1) == self.inputs.keys() && entries_of(a[i].1).len() == self.inputs.values().len() && forall|j: int| 0 <= j < entries_of(a[i].1).len() ==> #[trigger] self.inputs.values()[j].documented_by(entries_of(a[i].1)[j].1));
            assert(b[i] == a[i]);
        }
        if self.outputs.keys().len() > 0 {
            let i = choose|i: int| 0 <= i < a.len() && a[i].0@ == "outputs"@ && (a[i].1 is Fields && keys_of(a[i].1) == self.outputs.keys() && entries_of(a[i].1).len() == self.outputs.values().len() && forall|j: int| 0 <= j < entries_of(a[i].1).len() ==> #[trigger] self.outputs.values()[j].documented_by(entries_of(a[i].1)[j].1));
            assert(b[i] == a[i]);
        }
        if self.secrets.keys().len() > 0 {
            let i = choose|i: int| 0 <= i < a.len() && a[i].0@ == "secrets"@ && (a[i].1 is Fields && keys_of(a[i].1) == self.secrets.keys() && entries_of(a[i].1).len() == self.secrets.values().len() && forall|j: int| 0 <= j < entries_of(a[i].1).len() ==> #[trigger] self.secrets.values()[j].documented_by(entries_of(a[i].1)[j].1));
            assert(b[i] == a[i]);
        }
        if self.branches@.len() > 0 {
            let i = choose|i: int| 0 <= i < a.len() && a[i].0@ == "branches"@ && is_texts(a[i].1, self.branches@);
            assert(b[i] == a[i]);
        }
        if self.branches_ignore@.len() > 0 {
            let i = choose|i: int| 0 <= i < a.len() && a[i].0@ == "branches-ignore"@ && is_texts(a[i].1, self.branches_ignore@);
            assert(b[i] == a[i]);
        }
        if self.types@.len() > 0 {
            let i = choose|i: int| 0 <= i < a.len() && a[i].0@ == "types"@ && is_texts(a[i].1, self.types@);
            assert(b[i] == a[i]);
        }
    }

    #[verifier::spinoff_prover]
    #[verifier::rlimit(100)]
    fn push_doc_fields_0(&self, fs: &mut Vec<(String, Doc)>)
        ensures
            entry_keys(final(fs)@) == entry_keys(old(fs)@) + opt_key(self.inputs.keys().len() > 0, "inputs"@)
                + opt_key(self.outputs.keys().len() > 0, "outputs"@)
                + opt_key(self.secrets.keys().len() > 0, "secrets"@)
                + opt_key(self.branches@.len() > 0, "branches"@)
                + opt_key(self.branches_ignore@.len() > 0, "branches-ignore"@)
                + opt_key(self.types@.len() > 0, "types"@),
            final(fs)@.len() >= old(fs)@.len(),
            forall|i: int| 0 <= i < old(fs)@.len() ==> #[trigger] final(fs)@[i] == old(fs)@[i],
            self.documents_part_0(final(fs)@),
    {
        // Each value is built whether or not its field is written; `push_opt`
        // drops the ones that are left out.
        let ghost at0: int = fs@.len() as int;
        let w0 = self.inputs.len() > 0;
        let c0 = input_map_doc(&self.inputs);
        push_opt(fs, w0, "inputs", c0);
        let ghost at1: int = fs@.len() as int;
        let w1 = self.outputs.len() > 0;
        let c1 = output_map_doc(&self.outputs);
        push_opt(fs, w1, "outputs", c1);
        let ghost at2: int = fs@.len() as int;
        let w2 = self.secrets.len() > 0;
        let c2 = secret_map_doc(&self.secrets);
        push_opt(fs, w2, "secrets", c2);
        let ghost at3: int = fs@.len() as int;
        let w3 = self.branches.len() > 0;
        let c3 = Doc::Texts(copy_texts(&self.branches));
        push_opt(fs, w3, "branches", c3);
        let ghost at4: int = fs@.len() as int;
        let w4 = self.branches_ignore.len() > 0;
        let c4 = Doc::Texts(copy_texts(&self.branches_ignore));
        push_opt(fs, w4, "branches-ignore", c4);
        let ghost at5: int = fs@.len() as int;
        let w5 = self.types.len() > 0;
        let c5 = Doc::Texts(copy_texts(&self.types));
        push_opt(fs, w5, "types", c5);
        proof {
            if self.inputs.keys().len() > 0 {
                assert(fs@[at0].0@ == "inputs"@);
                assert((fs@[at0].1 is Fields && keys_of(fs@[at0].1) == self.inputs.keys() && entries_of(fs@[at0].1).len() == self.inputs.values().len() && forall|j: int| 0 <= j < entries_of(fs@[at0].1).len() ==> #[trigger] self.inputs.values()[j].documented_by(entries_of(fs@[at0].1)[j].1)));
            }
            if self.outputs.keys().len() > 0 {
                assert(fs@[at1].0@ == "outputs"@);
                assert((fs@[at1].1 is Fields && keys_of(fs@[at1].1) == self.outputs.keys() && entries_of(fs@[at1].1).len() == self.outputs.values().len() && forall|j: int| 0 <= j < entries_of(fs@[at1].1).len() ==> #[trigger] self.outputs.values()[j].documented_by(entries_of(fs@[at1].1)[j].1)));
            }
            if self.secrets.keys().len() > 0 {
                assert(fs@[at2].0@ == "secrets"@);
                assert((fs@[at2].1 is Fields && keys_of(fs@[at2].1) == self.secrets.keys() && entries_of(fs@[at2].1).len() == self.secrets.values().len() && forall|j: int| 0 <= j < entries_of(fs@[at2].1).len() ==> #[trigger] self.secrets.values()[j].documented_by(entries_of(fs@[at2].1)[j].1)));
            }
            if self.branches@.len() > 0 {
                assert(fs@[at3].0@ == "branches"@);
                assert(is_texts(fs@[at3].1, self.branches@));
            }
            if self.branches_ignore@.len() > 0 {
                assert(fs@[at4].0@ == "branches-ignore"@);
                assert(is_texts(fs@[at4].1, self.branches_ignore@));
            }
            if self.types@.len() > 0 {
                assert(fs@[at5].0@ == "types"@);
                assert(is_texts(fs@[at5].1, self.types@));
            }
        }
    }

    /// The document of this value.
    #[verifier::spinoff_prover]
    #[verifier::rlimit(100)]
    pub fn to_doc(&self) -> (r: Doc)
        ensures
            self.documented_by(r),
    {
        let mut fs: Vec<(String, Doc)> = Vec::new();
        assert(entry_keys(fs@) =~= Seq::<Seq<char>>::empty());
        let ghost before0 = fs@;
        self.push_doc_fields_0(&mut fs);
        assert(entry_keys(fs@) =~= opt_key(self.inputs.keys().len() > 0, "inputs"@)
            + opt_key(self.outputs.keys().len() > 0, "outputs"@)
            + opt_key(self.secrets.keys().len() > 0, "secrets"@)
            + opt_key(self.branches@.len() > 0, "branches"@)
            + opt_key(self.branches_ignore@.len() > 0, "branches-ignore"@)
            + opt_key(self.types@.len() > 0, "types"@));
        proof {
        }
        Doc::Fields(fs)
    }
}

fn input_map_doc(m: &KeyedMap<Input>) -> (r: Doc)
    ensures
        r is Fields,
        keys_of(r) == m.keys(),
        entries_of(r).len() == m.values().len(),
        forall|j: int| 0 <= j < entries_of(r).len() ==> #[trigger] m.values()[j].documented_by(entries_of(r)[j].1),
{
    let mut fs: Vec<(String, Doc)> = Vec::new();
    let n = m.len();
    let mut i: usize = 0;
    while i < n
        invariant
            n == m.keys().len(),
            n == m.values().len(),
            i <= n,
            fs@.len() == i,
            forall|j: int| 0 <= j < i ==> (#[trigger] fs@[j]).0@ == m.keys()[j],
            forall|j: int| 0 <= j < i ==> #[trigger] m.values()[j].documented_by(fs@[j].1),
        decreases n - i,
    {
        let (k, v) = m.entry(i);
        fs.push((k.clone(), v.to_doc()));
        i += 1;
    }
    let r = Doc::Fields(fs);
    assert(keys_of(r) =~= m.keys());
    r
}

fn output_map_doc(m: &KeyedMap<Output>) -> (r: Doc)
    ensures
        r is Fields,
        keys_of(r) == m.keys(),
        entries_of(r).len() == m.values().len(),
        forall|j: int| 0 <= j < entries_of(r).len() ==> #[trigger] m.values()[j].documented_by(entries_of(r)[j].1),
{
    let mut fs: Vec<(String, Doc)> = Vec::new();
    let n = m.len();
    let mut i: usize = 0;
    while i < n
        invariant
            n == m.keys().len(),
            n == m.values().len(),
            i <= n,
            fs@.len() == i,
            forall|j: int| 0 <= j < i ==> (#[trigger] fs@[j]).0@ == m.keys()[j],
            forall|j: int| 0 <= j < i ==> #[trigger] m.values()[j].documented_by(fs@[j].1),
        decreases n - i,
    {
        let (k, v) = m.entry(i);
        fs.push((k.clone(), v.to_doc()));
        i += 1;
    }
    let r = Doc::Fields(fs);
    assert(keys_of(r) =~= m.keys());
    r
}

fn secret_map_doc(m: &KeyedMap<Secret>) -> (r: Doc)
    ensures
        r is Fields,
        keys_of(r) == m.keys(),
        entries_of(r).len() == m.values().len(),
        forall|j: int| 0 <= j < entries_of(r).len() ==> #[trigger] m.values()[j].documented_by(entries_of(r)[j].1),
{
    let mut fs: Vec<(String, Doc)> = Vec::new();
    let n = m.len();
    let mut i: usize = 0;
    while i < n
        invariant
            n == m.keys().len(),
            n == m.values().len(),
            i <= n,
            fs@.len() == i,
            forall|j: int| 0 <= j < i ==> (#[trigger] fs@[j]).0@ == m.keys()[j],
            forall|j: int| 0 <= j < i ==> #[trigger] m.values()[j].documented_by(fs@[j].1),
        decreases n - i,
    {
        let (k, v) = m.entry(i);
        fs.push((k.clone(), v.to_doc()));
        i += 1;
    }
    let r = Doc::Fields(fs);
    assert(keys_of(r) =~= m.keys());
    r
}

/// The manual-dispatch trigger.
#[derive(Debug, Clone)]
pub struct WorkflowDispatch {
    pub inputs: KeyedMap<Input>,
    pub types: Vec<String>,
}

impl WorkflowDispatch {
    /// The keyed fields are in order.
    pub open spec fn wf(&self) -> bool {
        self.inputs.wf()
    }

    /// Every field is at its starting value.
    pub open spec fn is_blank(&self) -> bool {
        self.inputs.keys().len() == 0
        && self.types@.len() == 0
    }

    /// No field would be written out.
    pub open spec fn is_empty_spec(&self) -> bool {
        self.inputs.keys().len() == 0
        && self.types@.len() == 0
    }

    /// Whether no field would be written out.
    pub fn is_empty(&self) -> (r: bool)
        ensures
            r == self.is_empty_spec(),
    {
        self.inputs.len() == 0
            && self.types.len() == 0
    }

    /// A value with every field at its starting value.
    pub fn new() -> (r: WorkflowDispatch)
        ensures
            r.is_blank(),
            r.wf(),
    {
        WorkflowDispatch {
            inputs: KeyedMap::new(),
            types: Vec::new(),
        }
    }

    /// Starts a builder with every field at its starting value.
    pub fn builder() -> (r: WorkflowDispatchBuilder)
        ensures
            r.staged().is_blank(),
            r.staged().wf(),
    {
        WorkflowDispatchBuilder { staged: WorkflowDispatch::new() }
    }
}

impl Default for WorkflowDispatch {
    fn default() -> (r: Self)
        ensures
            r.is_blank(),
    {
        WorkflowDispatch::new()
    }
}

/// Stages a [`WorkflowDispatch`]: lists only grow at their end, keyed fields take
/// the last value set under a key, and `build` hands out the result.
pub struct WorkflowDispatchBuilder {
    staged: WorkflowDispatch,
}

impl WorkflowDispatchBuilder {
    /// What `build` would hand out now.
    pub closed spec fn staged(&self) -> WorkflowDispatch {
        self.staged
    }

    pub fn build(self) -> (r: WorkflowDispatch)
        ensures
            r == self.staged(),
    {
        self.staged
    }

    /// Sets `key` to `value` in `inputs`.
    pub fn input(self, key: &str, value: Input) -> (r: WorkflowDispatchBuilder)
        requires
            self.staged().wf(),
        ensures
            r.staged().wf(),
            r.staged().inputs.view() == self.staged().inputs.view().insert(key@, value),
            (r.staged() == (WorkflowDispatch { inputs: r.staged().inputs, ..self.staged() })),
    {
        let mut b = self;
        b.staged.inputs.insert(key.to_owned(), value);
        b
    }

    /// Appends `value` to `types`.
    pub fn event_type(self, value: &str) -> (r: WorkflowDispatchBuilder)
        ensures
            texts(r.staged().types@) == texts(self.staged().types@).push(value@),
            (r.staged() == (WorkflowDispatch { types: r.staged().types, ..self.staged() })),
    {
        let mut b = self;
        push_text(&mut b.staged.types, value);
        b
    }

}

impl WorkflowDispatch {
    /// `d` is the document of this value: the fields that are not empty,
    /// in declaration order under their written keys, each with its own document.
    pub open spec fn documented_by(&self, d: Doc) -> bool {
        &&& d is Fields
        &&& keys_of(d) == opt_key(self.inputs.keys().len() > 0, "inputs"@)
            + opt_key(self.types@.len() > 0, "types"@)
        &&& self.documents_part_0(entries_of(d))
    }

    /// Each of `inputs`, `types` that is not empty stands in `fs` with its document.
    pub open spec fn documents_part_0(&self, fs: Seq<(String, Doc)>) -> bool {
        &&& self.inputs.keys().len() > 0 ==> holds_in(fs, "inputs"@, |c: Doc| (c is Fields && keys_of(c) == self.inputs.keys() && entries_of(c).len() == self.inputs.values().len() && forall|j: int| 0 <= j < entries_of(c).len() ==> #[trigger] self.inputs.values()[j].documented_by(entries_of(c)[j].1)))
        &&& self.types@.len() > 0 ==> holds_in(fs, "types"@, |c: Doc| is_texts(c, self.types@))
    }

    proof fn lemma_part_0_kept(&self, a: Seq<(String, Doc)>, b: Seq<(String, Doc)>)
        requires
            self.documents_part_0(a),
            b.len() >= a.len(),
            forall|i: int| 0 <= i < a.len() ==> #[trigger] b[i] == a[i],
        ensures
            self.documents_part_0(b),
    {
        if self.inputs.keys().len() > 0 {
            let i = choose|i: int| 0 <= i < a.len() && a[i].0@ == "inputs"@ && (a[i].1 is Fields && keys_of(a[i].1) == self.inputs.keys() && entries_of(a[i].1).len() == self.inputs.values().len() && forall|j: int| 0 <= j < entries_of(a[i].1).len() ==> #[trigger] self.inputs.values()[j].documented_by(entries_of(a[i].1)[j].1));
            assert(b[i] == a[i]);
        }
        if self.types@.len() > 0 {
            let i = choose|i: int| 0 <= i < a.len() && a[i].0@ == "types"@ && is_texts(a[i].1, self.types@);
            assert(b[i] == a[i]);
        }
    }

    #[verifier::spinoff_prover]
    #[verifier::rlimit(100)]
    fn push_doc_fields_0(&self, fs: &mut Vec<(String, Doc)>)
        ensures
            entry_keys(final(fs)@) == entry_keys(old(fs)@) + opt_key(self.inputs.keys().len() > 0, "inputs"@)
                + opt_key(self.types@.len() > 0, "types"@),
            final(fs)@.len() >= old(fs)@.len(),
            forall|i: int| 0 <= i < old(fs)@.len() ==> #[trigger] final(fs)@[i] == old(fs)@[i],
            self.documents_part_0(final(fs)@),
    {
        // Each value is built whether or not its field is written; `push_opt`
        // drops the ones that are left out.
        let ghost at0: int = fs@.len() as int;
        let w0 = self.inputs.len() > 0;
        let c0 = input_map_doc(&self.inputs);
        push_opt(fs, w0, "inputs", c0);
        let ghost at1: int = fs@.len() as int;
        let w1 = self.types.len() > 0;
        let c1 = Doc::Texts(copy_texts(&self.types));
        push_opt(fs, w1, "types", c1);
        proof {
            if self.inputs.keys().len() > 0 {
                assert(fs@[at0].0@ == "inputs"@);
                assert((fs@[at0].1 is Fields && keys_of(fs@[at0].1) == self.inputs.keys() && entries_of(fs@[at0].1).len() == self.inputs.values().len() && forall|j: int| 0 <= j < entries_of(fs@[at0].1).len() ==> #[trigger] self.inputs.values()[j].documented_by(entries_of(fs@[at0].1)[j].1)));
            }
            if self.types@.len() > 0 {
                assert(fs@[at1].0@ == "types"@);
                assert(is_texts(fs@[at1].1, self.types@));
            }
        }
    }

    /// The document of this value.
    #[verifier::spinoff_prover]
    #[verifier::rlimit(100)]
    pub fn to_doc(&self) -> (r: Doc)
        ensures
            self.documented_by(r),
    {
        let mut fs: Vec<(String, Doc)> = Vec::new();
        assert(entry_keys(fs@) =~= Seq::<Seq<char>>::empty());
        let ghost before0 = fs@;
        self.push_doc_fields_0(&mut fs);
        assert(entry_keys(fs@) =~= opt_key(self.inputs.keys().len() > 0, "inputs"@)
            + opt_key(self.types@.len() > 0, "types"@));
        proof {
        }
        Doc::Fields(fs)
    }
}

/// The events that start a workflow, each optional.
#[derive(Debug, Clone)]
pub struct Triggers {
    pub pull_request: Option<PullRequest>,
    pub pull_request_target: Option<PullRequest>,
    pub push: Option<Push>,
    pub schedule: Option<Schedule>,
    pub workflow_call: Option<WorkflowCall>,
    pub workflow_dispatch: Option<WorkflowDispatch>,
}

impl Triggers {
    /// The keyed fields are in order.
    pub open spec fn wf(&self) -> bool {
        true
    }

    /// Every field is at its starting value.
    pub open spec fn is_blank(&self) -> bool {
        self.pull_request is None
        && self.pull_request_target is None
        && self.push is None
        && self.schedule is None
        && self.workflow_call is None
        && self.workflow_dispatch is None
    }

    /// No field would be written out.
    pub open spec fn is_empty_spec(&self) -> bool {
        !((self.pull_request is Some && !self.pull_request->Some_0.is_empty_spec()))
        && !((self.pull_request_target is Some && !self.pull_request_target->Some_0.is_empty_spec()))
        && !((self.push is Some && !self.push->Some_0.is_empty_spec()))
        && !((self.schedule is Some && !self.schedule->Some_0.is_empty_spec()))
        && !((self.workflow_call is Some && !self.workflow_call->Some_0.is_empty_spec()))
        && !((self.workflow_dispatch is Some && !self.workflow_dispatch->Some_0.is_empty_spec()))
    }

    /// Whether no field would be written out.
    pub fn is_empty(&self) -> (r: bool)
        ensures
            r == self.is_empty_spec(),
    {
        !(match &self.pull_request { Option::Some(x) => !x.is_empty(), Option::None => false })
            && !(match &self.pull_request_target { Option::Some(x) => !x.is_empty(), Option::None => false })
            && !(match &self.push { Option::Some(x) => !x.is_empty(), Option::None => false })
            && !(match &self.schedule { Option::Some(x) => !x.is_empty(), Option::None => false })
            && !(match &self.workflow_call { Option::Some(x) => !x.is_empty(), Option::None => false })
            && !(match &self.workflow_dispatch { Option::Some(x) => !x.is_empty(), Option::None => false })
    }

    /// A value with every field at its starting value.
    pub fn new() -> (r: Triggers)
        ensures
            r.is_blank(),
            r.wf(),
    {
        Triggers {
            pull_request: Option::None,
            pull_request_target: Option::None,
            push: Option::None,
            schedule: Option::None,
            workflow_call: Option::None,
            workflow_dispatch: Option::None,
        }
    }
}

impl Default for Triggers {
    fn default() -> (r: Self)
        ensures
            r.is_blank(),
    {
        Triggers::new()
    }
}

impl Triggers {
    /// `d` is the document of this value: the fields that are not empty,
    /// in declaration order under their written keys, each with its own document.
    pub open spec fn documented_by(&self, d: Doc) -> bool {
        &&& d is Fields
        &&& keys_of(d) == opt_key((self.pull_request is Some && !self.pull_request->Some_0.is_empty_spec()), "pull_request"@)
            + opt_key((self.pull_request_target is Some && !self.pull_request_target->Some_0.is_empty_spec()), "pull_request_target"@)
            + opt_key((self.push is Some && !self.push->Some_0.is_empty_spec()), "push"@)
            + opt_key((self.schedule is Some && !self.schedule->Some_0.is_empty_spec()), "schedule"@)
            + opt_key((self.workflow_call is Some && !self.workflow_call->Some_0.is_empty_spec()), "workflow_call"@)
            + opt_key((self.workflow_dispatch is Some && !self.workflow_dispatch->Some_0.is_empty_spec()), "workflow_dispatch"@)
        &&& self.documents_part_0(entries_of(d))
    }

    /// Each of `pull_request`, `pull_request_target`, `push`, `schedule`, `workflow_call`, `workflow_dispatch` that is not empty stands in `fs` with its document.
    pub open spec fn documents_part_0(&self, fs: Seq<(String, Doc)>) -> bool {
        &&& (self.pull_request is Some && !self.pull_request->Some_0.is_empty_spec()) ==> holds_in(fs, "pull_request"@, |c: Doc| self.pull_request->Some_0.documented_by(c))
        &&& (self.pull_request_target is Some && !self.pull_request_target->Some_0.is_empty_spec()) ==> holds_in(fs, "pull_request_target"@, |c: Doc| self.pull_request_target->Some_0.documented_by(c))
        &&& (self.push is Some && !self.push->Some_0.is_empty_spec()) ==> holds_in(fs, "push"@, |c: Doc| self.push->Some_0.documented_by(c))
        &&& (self.schedule is Some && !self.schedule->Some_0.is_empty_spec()) ==> holds_in(fs, "schedule"@, |c: Doc| self.schedule->Some_0.documented_by(c))
        &&& (self.workflow_call is Some && !self.workflow_call->Some_0.is_empty_spec()) ==> holds_in(fs, "workflow_call"@, |c: Doc| self.workflow_call->Some_0.documented_by(c))
        &&& (self.workflow_dispatch is Some && !self.workflow_dispatch->Some_0.is_empty_spec()) ==> holds_in(fs, "workflow_dispatch"@, |c: Doc| self.workflow_dispatch->Some_0.documented_by(c))
    }

    proof fn lemma_part_0_kept(&self, a: Seq<(String, Doc)>, b: Seq<(String, Doc)>)
        requires
            self.documents_part_0(a),
            b.len() >= a.len(),
            forall|i: int| 0 <= i < a.len() ==> #[trigger] b[i] == a[i],
        ensures
            self.documents_part_0(b),
    {
        if (self.pull_request is Some && !self.pull_request->Some_0.is_empty_spec()) {
            let i = choose|i: int| 0 <= i < a.len() && a[i].0@ == "pull_request"@ && self.pull_request->Some_0.documented_by(a[i].1);
            assert(b[i] == a[i]);
        }
        if (self.pull_request_target is Some && !self.pull_request_target->Some_0.is_empty_spec()) {
            let i = choose|i: int| 0 <= i < a.len() && a[i].0@ == "pull_request_target"@ && self.pull_request_target->Some_0.documented_by(a[i].1);
            assert(b[i] == a[i]);
        }
        if (self.push is Some && !self.push->Some_0.is_empty_spec()) {
            let i = choose|i: int| 0 <= i < a.len() && a[i].0@ == "push"@ && self.push->Some_0.documented_by(a[i].1);
            assert(b[i] == a[i]);
        }
        if (self.schedule is Some && !self.schedule->Some_0.is_empty_spec()) {
            let i = choose|i: int| 0 <= i < a.len() && a[i].0@ == "schedule"@ && self.schedule->Some_0.documented_by(a[i].1);
            assert(b[i] == a[i]);
        }
        if (self.workflow_call is Some && !self.workflow_call->Some_0.is_empty_spec()) {
            let i = choose|i: int| 0 <= i < a.len() && a[i].0@ == "workflow_call"@ && self.workflow_call->Some_0.documented_by(a[i].1);
            assert(b[i] == a[i]);
        }
        if (self.workflow_dispatch is Some && !self.workflow_dispatch->Some_0.is_empty_spec()) {
            let i = choose|i: int| 0 <= i < a.len() && a[i].0@ == "workflow_dispatch"@ && self.workflow_dispatch->Some_0.documented_by(a[i].1);
            assert(b[i] == a[i]);
        }
    }

    #[verifier::spinoff_prover]
    #[verifier::rlimit(100)]
    fn push_doc_fields_0(&self, fs: &mut Vec<(String, Doc)>)
        ensures
            entry_keys(final(fs)@) == entry_keys(old(fs)@) + opt_key((self.pull_request is Some && !self.pull_request->Some_0.is_empty_spec()), "pull_request"@)
                + opt_key((self.pull_request_target is Some && !self.pull_request_target->Some_0.is_empty_spec()), "pull_request_target"@)
                + opt_key((self.push is Some && !self.push->Some_0.is_empty_spec()), "push"@)
                + opt_key((self.schedule is Some && !self.schedule->Some_0.is_empty_spec()), "schedule"@)
                + opt_key((self.workflow_call is Some && !self.workflow_call->Some_0.is_empty_spec()), "workflow_call"@)
                + opt_key((self.workflow_dispatch is Some && !self.workflow_dispatch->Some_0.is_empty_spec()), "workflow_dispatch"@),
            final(fs)@.len() >= old(fs)@.len(),
            forall|i: int| 0 <= i < old(fs)@.len() ==> #[trigger] final(fs)@[i] == old(fs)@[i],
            self.documents_part_0(final(fs)@),
    {
        // Each value is built whether or not its field is written; `push_opt`
        // drops the ones that are left out.
        let ghost at0: int = fs@.len() as int;
        let w0 = match &self.pull_request { Option::Some(x) => !x.is_empty(), Option::None => false };
        let c0 = match &self.pull_request { Option::Some(x) => x.to_doc(), Option::None => Doc::Flag(false) };
        push_opt(fs, w0, "pull_request", c0);
        let ghost at1: int = fs@.len() as int;
        let w1 = match &self.pull_request_target { Option::Some(x) => !x.is_empty(), Option::None => false };
        let c1 = match &self.pull_request_target { Option::Some(x) => x.to_doc(), Option::None => Doc::Flag(false) };
        push_opt(fs, w1, "pull_request_target", c1);
        let ghost at2: int = fs@.len() as int;
        let w2 = match &self.push { Option::Some(x) => !x.is_empty(), Option::None => false };
        let c2 = match &self.push { Option::Some(x) => x.to_doc(), Option::None => Doc::Flag(false) };
        push_opt(fs, w2, "push", c2);
        let ghost at3: int = fs@.len() as int;
        let w3 = match &self.schedule { Option::Some(x) => !x.is_empty(), Option::None => false };
        let c3 = match &self.schedule { Option::Some(x) => x.to_doc(), Option::None => Doc::Flag(false) };
        push_opt(fs, w3, "schedule", c3);
        let ghost at4: int = fs@.len() as int;
        let w4 = match &self.workflow_call { Option::Some(x) => !x.is_empty(), Option::None => false };
        let c4 = match &self.workflow_call { Option::Some(x) => x.to_doc(), Option::None => Doc::Flag(false) };
        push_opt(fs, w4, "workflow_call", c4);
        let ghost at5: int = fs@.len() as int;
        let w5 = match &self.workflow_dispatch { Option::Some(x) => !x.is_empty(), Option::None => false };
        let c5 = match &self.workflow_dispatch { Option::Some(x) => x.to_doc(), Option::None => Doc::Flag(false) };
        push_opt(fs, w5, "workflow_dispatch", c5);
        proof {
            if (self.pull_request is Some && !self.pull_request->Some_0.is_empty_spec()) {
                assert(fs@[at0].0@ == "pull_request"@);
                assert(self.pull_request->Some_0.documented_by(fs@[at0].1));
            }
            if (self.pull_request_target is Some && !self.pull_request_target->Some_0.is_empty_spec()) {
                assert(fs@[at1].0@ == "pull_request_target"@);
                assert(self.pull_request_target->Some_0.documented_by(fs@[at1].1));
            }
            if (self.push is Some && !self.push->Some_0.is_empty_spec()) {
                assert(fs@[at2].0@ == "push"@);
                assert(self.push->Some_0.documented_by(fs@[at2].1));
            }
            if (self.schedule is Some && !self.schedule->Some_0.is_empty_spec()) {
                assert(fs@[at3].0@ == "schedule"@);
                assert(self.schedule->Some_0.documented_by(fs@[at3].1));
            }
            if (self.workflow_call is Some && !self.workflow_call->Some_0.is_empty_spec()) {
                assert(fs@[at4].0@ == "workflow_call"@);
                assert(self.workflow_call->Some_0.documented_by(fs@[at4].1));
            }
            if (self.workflow_dispatch is Some && !self.workflow_dispatch->Some_0.is_empty_spec()) {
                assert(fs@[at5].0@ == "workflow_dispatch"@);
                assert(self.workflow_dispatch->Some_0.documented_by(fs@[at5].1));
            }
        }
    }

    /// The document of this value.
    #[verifier::spinoff_prover]
    #[verifier::rlimit(100)]
    pub fn to_doc(&self) -> (r: Doc)
        ensures
            self.documented_by(r),
    {
        let mut fs: Vec<(String, Doc)> = Vec::new();
        assert(entry_keys(fs@) =~= Seq::<Seq<char>>::empty());
        let ghost before0 = fs@;
        self.push_doc_fields_0(&mut fs);
        assert(entry_keys(fs@) =~= opt_key((self.pull_request is Some && !self.pull_request->Some_0.is_empty_spec()), "pull_request"@)
            + opt_key((self.pull_request_target is Some && !self.pull_request_target->Some_0.is_empty_spec()), "pull_request_target"@)
            + opt_key((self.push is Some && !self.push->Some_0.is_empty_spec()), "push"@)
            + opt_key((self.schedule is Some && !self.schedule->Some_0.is_empty_spec()), "schedule"@)
            + opt_key((self.workflow_call is Some && !self.workflow_call->Some_0.is_empty_spec()), "workflow_call"@)
            + opt_key((self.workflow_dispatch is Some && !self.workflow_dispatch->Some_0.is_empty_spec()), "workflow_dispatch"@));
        proof {
        }
        Doc::Fields(fs)
    }
}

} // verus!
