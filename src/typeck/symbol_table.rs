//! Symbol table: a stack of scopes from outermost to innermost, each
//! mapping names to types. Lookup finds the innermost binding.
use vstd::prelude::*;
use crate::ast::Type;

verus! {

/// Bindings of one scope, the latest binding of a name winning.
pub open spec fn frame_map(f: Seq<(String, Type)>) -> Map<Seq<char>, Type>
    decreases f.len(),
{
    if f.len() == 0 {
        Map::empty()
    } else {
        frame_map(f.drop_last()).insert(f.last().0@, f.last().1)
    }
}

/// The type bound to `name` in the innermost scope that binds it.
pub open spec fn lookup_in(scopes: Seq<Map<Seq<char>, Type>>, name: Seq<char>) -> Option<Type>
    decreases scopes.len(),
{
    if scopes.len() == 0 {
        None
    } else if scopes.last().contains_key(name) {
        Some(scopes.last()[name])
    } else {
        lookup_in(scopes.drop_last(), name)
    }
}

/// Scopes of names and their types.
#[derive(Debug)]
pub struct SymbolTable {
    frames: Vec<Vec<(String, Type)>>,
}

impl SymbolTable {
    /// The scopes, outermost first.
    pub closed spec fn scopes(&self) -> Seq<Map<Seq<char>, Type>> {
        self.frames@.map_values(|f: Vec<(String, Type)>| frame_map(f@))
    }

    /// There is always a current scope.
    pub closed spec fn wf(&self) -> bool {
        self.frames.len() >= 1
    }

    /// A table with one empty scope.
    pub fn new() -> (r: SymbolTable)
        ensures
            r.wf(),
            r.scopes() == seq![Map::<Seq<char>, Type>::empty()],
    {
        let mut frames: Vec<Vec<(String, Type)>> = Vec::new();
        frames.push(Vec::new());
        proof {
            assert(frames@.map_values(|f: Vec<(String, Type)>| frame_map(f@)) =~= seq![
                Map::<Seq<char>, Type>::empty(),
            ]);
        }
        SymbolTable { frames }
    }

    /// Binds `name` to `ty` in the current scope, replacing an earlier
    /// binding of `name` there.
    pub fn insert(&mut self, name: String, ty: Type)
        requires
            old(self).wf(),
        ensures
            final(self).wf(),
            final(self).scopes() == old(self).scopes().update(
                old(self).scopes().len() - 1,
                old(self).scopes().last().insert(name@, ty),
            ),
    {
        let mut frame = self.frames.pop().unwrap();
        let ghost before = frame@;
        frame.push((name, ty));
        proof {
            assert(frame@.drop_last() =~= before);
        }
        self.frames.push(frame);
        proof {
            assert(self.scopes() =~= old(self).scopes().update(
                old(self).scopes().len() - 1,
                old(self).scopes().last().insert(name@, ty),
            ));
        }
    }

    /// The type of `name` in the innermost scope that binds it.
    pub fn lookup(&self, name: &str) -> (r: Option<&Type>)
        requires
            self.wf(),
        ensures
            match r {
                Some(t) => lookup_in(self.scopes(), name@) == Some(*t),
                None => lookup_in(self.scopes(), name@) is None,
            },
    {
        let key = name.to_owned();
        let mut i: usize = self.frames.len();
        proof {
            assert(self.scopes().take(i as int) =~= self.scopes());
        }
        while i > 0
            invariant
                i <= self.frames.len(),
                key@ == name@,
                lookup_in(self.scopes(), name@) == lookup_in(self.scopes().take(i as int), name@),
            decreases i,
        {
            let frame = &self.frames[i - 1];
            let ghost scopes_i = self.scopes().take(i as int);
            proof {
                assert(scopes_i.drop_last() =~= self.scopes().take(i - 1));
                assert(scopes_i.last() == frame_map(frame@));
            }
            let mut j: usize = frame.len();
            proof {
                assert(frame@.take(j as int) =~= frame@);
            }
            while j > 0
                invariant
                    j <= frame.len(),
                    key@ == name@,
                    scopes_i.len() > 0,
                    scopes_i.last() == frame_map(frame@),
                    lookup_in(self.scopes(), name@) == lookup_in(scopes_i, name@),
                    frame_map(frame@).contains_key(name@) == frame_map(frame@.take(j as int)).contains_key(name@),
                    frame_map(frame@).contains_key(name@) ==> frame_map(frame@)[name@] == frame_map(
                        frame@.take(j as int),
                    )[name@],
                decreases j,
            {
                proof {
                    assert(frame@.take(j as int).drop_last() =~= frame@.take(j - 1));
                }
                if frame[j - 1].0.eq(&key) {
                    proof {
                        assert(frame@.take(j as int).last() == frame@[j - 1]);
                        assert(frame_map(frame@.take(j as int)) == frame_map(frame@.take(j - 1)).insert(
                            name@,
                            frame@[j - 1].1,
                        ));
                        assert(frame_map(frame@).contains_key(name@));
                        assert(frame_map(frame@)[name@] == frame@[j - 1].1);
                        assert(scopes_i.last().contains_key(name@));
                        assert(lookup_in(scopes_i, name@) == Some(frame@[j - 1].1));
                    }
                    return Some(&frame[j - 1].1);
                }
                j = j - 1;
            }
            proof {
                assert(frame@.take(0) =~= Seq::<(String, Type)>::empty());
            }
            i = i - 1;
        }
        proof {
            assert(self.scopes().take(0) =~= Seq::<Map<Seq<char>, Type>>::empty());
        }
        None
    }

    /// Opens a new, empty scope inside the current ones.
    pub fn push_scope(self) -> (r: SymbolTable)
        requires
            self.wf(),
        ensures
            r.wf(),
            r.scopes() == self.scopes().push(Map::empty()),
    {
        let mut frames = self.frames;
        frames.push(Vec::new());
        let r = SymbolTable { frames };
        proof {
            assert(r.scopes() =~= self.scopes().push(Map::empty()));
        }
        r
    }
}

} // verus!
