//! The model registry: named models, their versions and sources, and the
//! decisions around keeping a local copy current.
//!
//! Reading and writing the local directories, and the downloads themselves,
//! happen outside the library; the registry hands out the registered models
//! and decides, from the version markers it is shown, which models need a
//! fresh download.

use vstd::prelude::*;

verus! {

/// One registered model: where it lives locally, which version is wanted,
/// and where its files come from.
pub struct Model {
    pub directory: String,
    pub version: String,
    pub source: ModelSource,
}

/// Where a model's files come from: a set of files in a hosted repository,
/// or one zip archive at a URL.
pub enum ModelSource {
    Huggingface(HuggingfaceModel),
    Zip(String),
}

/// A hosted repository holding a model's files, pinned to a commit when one
/// is given and otherwise to `main`.
pub struct HuggingfaceModel {
    pub repo: String,
    pub files: Vec<String>,
    pub commit: Option<String>,
}

/// The commit the repository's files are resolved against.
pub open spec fn spec_commit(m: &HuggingfaceModel) -> Seq<char> {
    match m.commit {
        Option::Some(c) => c@,
        Option::None => "main"@,
    }
}

/// The URL one file of the repository resolves to.
pub open spec fn spec_hf_url(m: &HuggingfaceModel, file: Seq<char>) -> Seq<char> {
    "https://huggingface.co/"@ + m.repo@ + "/resolve/"@ + spec_commit(m) + "/"@ + file
}

impl HuggingfaceModel {
    /// Each file of the repository paired with the URL it is fetched from.
    pub fn url(&self) -> (r: Vec<(String, String)>)
        ensures
            r@.len() == self.files@.len(),
            forall|i: int|
                0 <= i < r@.len() ==> (#[trigger] r@[i]).0@ == self.files@[i]@ && r@[i].1@
                    == spec_hf_url(self, self.files@[i]@),
    {
        let mut out: Vec<(String, String)> = Vec::new();
        let commit: &str = match &self.commit {
            Some(c) => c.as_str(),
            None => "main",
        };
        let mut i: usize = 0;
        while i < self.files.len()
            invariant
                0 <= i <= self.files@.len(),
                out@.len() == i,
                commit@ == spec_commit(self),
                forall|j: int|
                    0 <= j < i ==> (#[trigger] out@[j]).0@ == self.files@[j]@ && out@[j].1@
                        == spec_hf_url(self, self.files@[j]@),
            decreases self.files@.len() - i,
        {
            let file = &self.files[i];
            let mut url = String::from_str("https://huggingface.co/");
            url.append(self.repo.as_str());
            url.append("/resolve/");
            url.append(commit);
            url.append("/");
            url.append(file.as_str());
            out.push((file.clone(), url));
            i = i + 1;
        }
        out
    }
}

/// The model registered under `ident`: the last registration wins, as a
/// later entry shadows an earlier one with the same name.
pub open spec fn spec_lookup(s: Seq<(String, Model)>, ident: Seq<char>) -> Option<Model>
    decreases s.len(),
{
    if s.len() == 0 {
        Option::None
    } else if s.last().0@ == ident {
        Option::Some(s.last().1)
    } else {
        spec_lookup(s.drop_last(), ident)
    }
}

/// Whether the local copy must be (re)fetched, given the version marker
/// that was read from it: yes when there is no marker, or when it names
/// another version than the wanted one.
pub fn download_needed(stored: Option<&String>, wanted: &String) -> (r: bool)
    ensures
        r == match stored {
            Option::Some(s) => s@ != wanted@,
            Option::None => true,
        },
{
    match stored {
        Some(s) => !(*s == *wanted),
        None => true,
    }
}

/// The registry of models under one local root directory.
pub struct ModelManager {
    pub model_path: String,
    pub models: Vec<(String, Model)>,
}

/// Whether model `i` of the registry needs a download, given the version
/// markers read for all models.
pub open spec fn spec_needs_download(
    models: Seq<(String, Model)>,
    stored: Seq<Option<String>>,
    i: int,
) -> bool {
    match stored[i] {
        Option::Some(s) => s@ != models[i].1.version@,
        Option::None => true,
    }
}

impl ModelManager {
    /// A registry rooted at the given directory, with nothing registered.
    pub fn new_custom(path: String) -> (r: ModelManager)
        ensures
            r.model_path == path,
            r.models@.len() == 0,
    {
        ModelManager { model_path: path, models: Vec::new() }
    }

    /// Register more models: the new entries go in behind the present ones,
    /// so a re-registered name shadows its earlier entry.
    pub fn register_models(&mut self, map: Vec<(String, Model)>)
        ensures
            final(self).model_path == old(self).model_path,
            final(self).models@ == old(self).models@ + map@,
    {
        let mut map = map;
        let ghost incoming = map@;
        while map.len() > 0
            invariant
                self.model_path == old(self).model_path,
                self.models@ + map@ == old(self).models@ + incoming,
            decreases map@.len(),
        {
            let pair = map.remove(0);
            let ghost before = self.models@;
            let ghost rest = map@;
            self.models.push(pair);
            proof {
                assert(before.push(pair) + rest =~= before + (seq![pair] + rest));
                assert(seq![pair] + rest =~= rest.insert(0, pair));
            }
        }
        proof {
            assert(self.models@ + map@ =~= self.models@);
        }
    }

    /// The model registered under `ident`, if any: the most recent
    /// registration of that name.
    pub fn find_model(&self, ident: &String) -> (r: Option<&Model>)
        ensures
            match r {
                Option::Some(m) => spec_lookup(self.models@, ident@) == Option::Some(*m),
                Option::None => spec_lookup(self.models@, ident@) is None,
            },
    {
        let mut i: usize = self.models.len();
        proof {
            assert(self.models@.subrange(0, self.models@.len() as int) =~= self.models@);
        }
        while i > 0
            invariant
                0 <= i <= self.models@.len(),
                spec_lookup(self.models@, ident@) == spec_lookup(
                    self.models@.subrange(0, i as int),
                    ident@,
                ),
            decreases i,
        {
            let ghost pre = self.models@.subrange(0, i as int);
            proof {
                assert(pre.last() == self.models@[i - 1]);
                assert(pre.drop_last() =~= self.models@.subrange(0, i - 1));
            }
            if self.models[i - 1].0 == *ident {
                return Some(&self.models[i - 1].1);
            }
            i = i - 1;
        }
        proof {
            assert(self.models@.subrange(0, 0) =~= Seq::<(String, Model)>::empty());
        }
        None
    }

    /// The indices of the models that need a download, in registry order,
    /// given the version marker read for each model (`None` where the local
    /// copy has none).
    pub fn select_downloads(&self, stored: &Vec<Option<String>>) -> (r: Vec<usize>)
        requires
            stored@.len() == self.models@.len(),
        ensures
            forall|k: int|
                0 <= k < r@.len() ==> 0 <= #[trigger] r@[k] < self.models@.len()
                    && spec_needs_download(self.models@, stored@, r@[k] as int),
            forall|k1: int, k2: int| 0 <= k1 < k2 < r@.len() ==> r@[k1] < r@[k2],
            forall|i: int|
                0 <= i < self.models@.len() && spec_needs_download(self.models@, stored@, i)
                    ==> r@.contains(i as usize),
    {
        let mut out: Vec<usize> = Vec::new();
        let n = self.models.len();
        let mut i: usize = 0;
        while i < n
            invariant
                n == self.models@.len(),
                stored@.len() == n,
                0 <= i <= n,
                forall|k: int|
                    0 <= k < out@.len() ==> 0 <= #[trigger] out@[k] < i && spec_needs_download(
                        self.models@,
                        stored@,
                        out@[k] as int,
                    ),
                forall|k1: int, k2: int| 0 <= k1 < k2 < out@.len() ==> out@[k1] < out@[k2],
                forall|j: int|
                    0 <= j < i && spec_needs_download(self.models@, stored@, j) ==> out@.contains(
                        j as usize,
                    ),
            decreases n - i,
        {
            let needed = match &stored[i] {
                Some(s) => !(*s == self.models[i].1.version),
                None => true,
            };
            let ghost before = out@;
            if needed {
                out.push(i);
            }
            proof {
                if needed {
                    assert forall|j: int|
                        0 <= j < i + 1 && spec_needs_download(
                            self.models@,
                            stored@,
                            j,
                        ) implies out@.contains(j as usize) by {
                        if j < i {
                            let k = choose|k: int|
                                0 <= k < before.len() && before[k] == j as usize;
                            assert(out@[k] == j as usize);
                        } else {
                            assert(out@[out@.len() - 1] == i as usize);
                        }
                    }
                } else {
                    assert(!spec_needs_download(self.models@, stored@, i as int));
                }
            }
            i = i + 1;
        }
        out
    }
}

/// The archive name a directory is parked under while it is rebuilt: the
/// directory's own name, a dash, and a timestamp.
pub fn stamped_dir_name(base: &String, stamp: &String) -> (r: String)
    ensures
        r@ == base@ + "-"@ + stamp@,
{
    let mut s = String::from_str(base.as_str());
    s.append("-");
    s.append(stamp.as_str());
    s
}

} // verus!
