use vstd::prelude::*;
use crate::rules::value::Type;

verus! {

/// The variables a rule can name, each bound once.
#[derive(Debug)]
pub struct RuleScope {
    vars: Vec<(String, Type)>,
}

/// The value bound to `ident` among `vs`.
pub open spec fn lookup(vs: Seq<(Seq<char>, Type)>, ident: Seq<char>) -> Option<Type>
    decreases vs.len(),
{
    if vs.len() == 0 {
        None
    } else if vs.last().0 == ident {
        Some(vs.last().1)
    } else {
        lookup(vs.drop_last(), ident)
    }
}

impl View for RuleScope {
    type V = Seq<(Seq<char>, Type)>;

    closed spec fn view(&self) -> Seq<(Seq<char>, Type)> {
        self.vars@.map_values(|p: (String, Type)| (p.0@, p.1))
    }
}

impl RuleScope {
    /// A scope with no variables.
    pub fn new() -> (r: Self)
        ensures
            r@ == Seq::<(Seq<char>, Type)>::empty(),
    {
        let r = RuleScope { vars: Vec::new() };
        assert(r@ =~= Seq::<(Seq<char>, Type)>::empty());
        r
    }

    /// The value bound to `ident`.
    pub fn get_var(&self, ident: &str) -> (r: Option<&Type>)
        ensures
            r matches Some(t) ==> lookup(self@, ident@) == Some(*t),
            r is None ==> lookup(self@, ident@) is None,
    {
        let mut i = self.vars.len();
        assert(self@.subrange(0, i as int) =~= self@);
        while i > 0
            invariant
                i <= self.vars@.len(),
                self@.len() == self.vars@.len(),
                lookup(self@, ident@) == lookup(self@.subrange(0, i as int), ident@),
            decreases i,
        {
            let k = i - 1;
            assert(self@.subrange(0, i as int).drop_last() =~= self@.subrange(0, k as int));
            if crate::text::str_eq(self.vars[k].0.as_str(), ident) {
                return Some(&self.vars[k].1);
            }
            i = k;
        }
        None
    }

    /// Binds `ident` to `value`; a later binding hides an earlier one.
    pub fn update_var(&mut self, ident: &str, value: Type)
        ensures
            final(self)@ == old(self)@.push((ident@, value)),
            lookup(final(self)@, ident@) == Some(value),
            forall|x: Seq<char>| x != ident@ ==> lookup(final(self)@, x) == lookup(old(self)@, x),
    {
        let ghost before = self@;
        self.vars.push((ident.to_owned(), value));
        assert(self@ =~= before.push((ident@, value)));
        assert(self@.drop_last() =~= before);
    }
}

} // verus!
