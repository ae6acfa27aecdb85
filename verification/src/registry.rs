//! The registry of imported keys: one definition per key, no identity twice.

use crate::error::{Fault, ImportError, ImportErrorView};
use crate::text::same_text;
use vstd::prelude::*;

verus! {

/// The record kept for one imported key.
#[derive(Clone, Debug, PartialEq, Eq)]
pub struct Definition {
    /// The key's public identifier.
    pub identity: String,
    /// Where the key's container lies.
    pub container_path: String,
    /// The container's password, where the operator chose to store it.
    pub password: Option<String>,
    /// Whether the key is to be used.
    pub enabled: bool,
}

/// A [`Definition`] as a mathematical value.
pub struct DefinitionView {
    pub identity: Seq<char>,
    pub container_path: Seq<char>,
    pub password: Option<Seq<char>>,
    pub enabled: bool,
}

/// A stored password as text.
pub open spec fn password_view(password: Option<String>) -> Option<Seq<char>> {
    match password {
        Some(p) => Some(p@),
        None => None,
    }
}

impl View for Definition {
    type V = DefinitionView;

    open spec fn view(&self) -> DefinitionView {
        DefinitionView {
            identity: self.identity@,
            container_path: self.container_path@,
            password: password_view(self.password),
            enabled: self.enabled,
        }
    }
}

/// The definitions of a list, each as a mathematical value.
pub open spec fn views(definitions: Seq<Definition>) -> Seq<DefinitionView> {
    Seq::new(definitions.len(), |i: int| definitions[i]@)
}

/// Whether some definition of `definitions` is for `identity`.
pub open spec fn has_identity(definitions: Seq<DefinitionView>, identity: Seq<char>) -> bool {
    exists|i: int| 0 <= i < definitions.len() && #[trigger] definitions[i].identity == identity
}

/// No two definitions of `definitions` share an identity.
pub open spec fn distinct_identities(definitions: Seq<DefinitionView>) -> bool {
    forall|i: int, j: int|
        0 <= i < j < definitions.len() ==> #[trigger] definitions[i].identity
            != #[trigger] definitions[j].identity
}

/// The definition that a fresh import of a key creates: enabled, with the
/// password only where one was given.
pub open spec fn imported_definition(
    identity: Seq<char>,
    container_path: Seq<char>,
    password: Option<Seq<char>>,
) -> DefinitionView {
    DefinitionView { identity, container_path, password, enabled: true }
}

impl Definition {
    /// The definition for a key that was just imported.
    pub fn imported(identity: &str, container_path: &str, password: Option<String>) -> (d:
        Definition)
        ensures
            d@ == imported_definition(identity@, container_path@, password_view(password)),
    {
        Definition {
            identity: String::from_str(identity),
            container_path: String::from_str(container_path),
            password,
            enabled: true,
        }
    }
}

/// All definitions of a node, in the order in which they were added.
#[derive(Clone, Debug, PartialEq, Eq)]
pub struct Registry {
    definitions: Vec<Definition>,
}

impl View for Registry {
    type V = Seq<DefinitionView>;

    closed spec fn view(&self) -> Seq<DefinitionView> {
        views(self.definitions@)
    }
}

impl Registry {
    /// The registry's invariant: no identity occurs twice.
    pub open spec fn wf(&self) -> bool {
        distinct_identities(self@)
    }

    /// A registry without definitions.
    pub fn new() -> (r: Registry)
        ensures
            r@ == Seq::<DefinitionView>::empty(),
            r.wf(),
    {
        let r = Registry { definitions: Vec::new() };
        assert(r@ =~= Seq::<DefinitionView>::empty());
        r
    }

    /// A registry of the given definitions, as loaded from storage. It is
    /// refused where an identity occurs twice: the error's cause is the first
    /// identity that repeats an earlier one.
    pub fn from_definitions(definitions: Vec<Definition>) -> (out: Result<Registry, ImportError>)
        ensures
            out.is_ok() <==> distinct_identities(views(definitions@)),
            match out {
                Ok(r) => r@ == views(definitions@) && r.wf(),
                Err(e) => exists|j: int|
                    {
                        &&& 0 <= j < definitions.len()
                        &&& distinct_identities(#[trigger] views(definitions@).take(j))
                        &&& has_identity(views(definitions@).take(j), definitions@[j].identity@)
                        &&& e@ == (ImportErrorView {
                            fault: Fault::RegistryMalformed,
                            path: ""@,
                            cause: definitions@[j].identity@,
                        })
                    },
            },
    {
        let mut j: usize = 0;
        while j < definitions.len()
            invariant
                j <= definitions.len(),
                distinct_identities(views(definitions@).take(j as int)),
            decreases definitions.len() - j,
        {
            let ghost all = views(definitions@);
            let mut i: usize = 0;
            while i < j
                invariant
                    i <= j < definitions.len(),
                    all == views(definitions@),
                    distinct_identities(all.take(j as int)),
                    forall|k: int| 0 <= k < i ==> all[k].identity != all[j as int].identity,
                decreases j - i,
            {
                if definitions[i].identity == definitions[j].identity {
                    proof {
                        let before = all.take(j as int);
                        assert(before[i as int].identity == definitions@[j as int].identity@);
                        assert(has_identity(before, definitions@[j as int].identity@));
                        assert(all[i as int].identity == all[j as int].identity);
                        assert(!distinct_identities(all));
                    }
                    return Err(
                        ImportError::new(
                            Fault::RegistryMalformed,
                            "",
                            definitions[j].identity.as_str(),
                        ),
                    );
                }
                i = i + 1;
            }
            j = j + 1;
            assert(distinct_identities(all.take(j as int))) by {
                assert forall|a: int, b: int| 0 <= a < b < j implies all.take(
                    j as int,
                )[a].identity != all.take(j as int)[b].identity by {
                    if b < j - 1 {
                        assert(all.take(j - 1)[a].identity != all.take(j - 1)[b].identity);
                    }
                }
            }
        }
        assert(views(definitions@).take(j as int) =~= views(definitions@));
        let r = Registry { definitions };
        Ok(r)
    }

    /// How many definitions there are.
    pub fn len(&self) -> (n: usize)
        ensures
            n == self@.len(),
    {
        self.definitions.len()
    }

    /// The definitions, oldest first.
    pub fn definitions(&self) -> (all: &Vec<Definition>)
        ensures
            views(all@) == self@,
    {
        &self.definitions
    }

    /// Whether the key with this identity has a definition.
    pub fn contains(&self, identity: &str) -> (found: bool)
        ensures
            found == has_identity(self@, identity@),
    {
        let mut i: usize = 0;
        while i < self.definitions.len()
            invariant
                i <= self.definitions.len(),
                forall|k: int| 0 <= k < i ==> self@[k].identity != identity@,
            decreases self.definitions.len() - i,
        {
            if same_text(self.definitions[i].identity.as_str(), identity) {
                assert(self@[i as int].identity == identity@);
                return true;
            }
            i = i + 1;
        }
        false
    }

    /// Adds a definition at the end. The caller has made sure that the key
    /// is not in the registry yet.
    pub fn push(&mut self, definition: Definition)
        requires
            old(self).wf(),
            !has_identity(old(self)@, definition@.identity),
        ensures
            final(self)@ == old(self)@.push(definition@),
            final(self).wf(),
    {
        self.definitions.push(definition);
        assert(self@ =~= old(self)@.push(definition@));
        assert forall|i: int, j: int| 0 <= i < j < self@.len() implies self@[i].identity
            != self@[j].identity by {
            if j == self@.len() - 1 {
                assert(old(self)@[i].identity != definition@.identity);
            }
        }
    }
}

} // verus!
