//! The state that the parser's actions share: the global and the local
//! symbol tables, and the parameters declared for the function whose
//! definition is being parsed.
pub mod methods;

use vstd::prelude::*;
use crate::symbol::{Symbol, SymbolTable, SymbolTableView, SymbolView, params_view};
use crate::type_table::Type;

verus! {

pub ghost struct ParserView {
    pub gst: SymbolTableView,
    pub lst: SymbolTableView,
    pub cfn_params: Seq<(Type, Seq<char>)>,
}

/// The tables and the current function's parameters.
pub struct Parser {
    gst: SymbolTable,
    lst: SymbolTable,
    cfn_params: Vec<(Type, String)>,
}

impl View for Parser {
    type V = ParserView;

    closed spec fn view(&self) -> ParserView {
        ParserView { gst: self.gst@, lst: self.lst@, cfn_params: params_view(self.cfn_params@) }
    }
}

/// Where a name is looked up: the local table first, then the global one.
pub open spec fn spec_lookup(p: ParserView, name: Seq<char>) -> Option<SymbolView> {
    if p.lst.symbols.contains_key(name) {
        Some(p.lst.symbols[name])
    } else if p.gst.symbols.contains_key(name) {
        Some(p.gst.symbols[name])
    } else {
        None
    }
}

/// Lookup follows the tables: a name the local table holds gives the local
/// symbol, whatever the global table holds; a name only the global table
/// holds gives the global symbol; and lookup fails exactly when neither
/// table holds the name.
pub proof fn law_lookup(p: ParserView, name: Seq<char>)
    ensures
        p.lst.symbols.contains_key(name) ==> spec_lookup(p, name) == Some(p.lst.symbols[name]),
        !p.lst.symbols.contains_key(name) && p.gst.symbols.contains_key(name) ==> spec_lookup(p, name) == Some(
            p.gst.symbols[name],
        ),
        spec_lookup(p, name) is None <==> !p.lst.symbols.contains_key(name) && !p.gst.symbols.contains_key(name),
{
}

/// A name just declared in the local table is found, as the symbol declared
/// there, whatever the global table holds; one just declared in the global
/// table is found unless the local table holds it.
pub proof fn law_lookup_after_declare(p: ParserView, s: SymbolView, name: Seq<char>)
    ensures
        spec_lookup(ParserView { lst: SymbolTableView { symbols: p.lst.symbols.insert(s.name(), s), ..p.lst }, ..p }, s.name())
            == Some(s),
        !p.lst.symbols.contains_key(s.name()) ==> spec_lookup(
            ParserView { gst: SymbolTableView { symbols: p.gst.symbols.insert(s.name(), s), ..p.gst }, ..p },
            s.name(),
        ) == Some(s),
{
}

impl Parser {
    /// Empty tables and no current function.
    pub fn new() -> (p: Parser)
        ensures
            p@.gst.symbols == Map::<Seq<char>, SymbolView>::empty(),
            p@.gst.size == 0,
            p@.lst.symbols == Map::<Seq<char>, SymbolView>::empty(),
            p@.lst.size == 0,
            p@.cfn_params == Seq::<(Type, Seq<char>)>::empty(),
    {
        let p = Parser { gst: SymbolTable::default(), lst: SymbolTable::default(), cfn_params: Vec::new() };
        assert(p@.cfn_params =~= Seq::<(Type, Seq<char>)>::empty());
        p
    }

    /// The global symbol table.
    pub fn gst(&mut self) -> (r: &mut SymbolTable)
        ensures
            r@ == old(self)@.gst,
            final(self)@ == (ParserView { gst: final(r)@, ..old(self)@ }),
    {
        &mut self.gst
    }

    /// The local symbol table of the current function.
    pub fn lst(&mut self) -> (r: &mut SymbolTable)
        ensures
            r@ == old(self)@.lst,
            final(self)@ == (ParserView { lst: final(r)@, ..old(self)@ }),
    {
        &mut self.lst
    }

    /// The parameters declared for the current function.
    pub fn cfn_params(&self) -> (r: &Vec<(Type, String)>)
        ensures
            params_view(r@) == self@.cfn_params,
    {
        &self.cfn_params
    }

    /// Makes `params` the declared parameters of the current function.
    pub fn set_cfn_params(&mut self, params: Vec<(Type, String)>)
        ensures
            final(self)@ == (ParserView { cfn_params: params_view(params@), ..old(self)@ }),
    {
        self.cfn_params = params;
    }

    /// A copy of the symbol that `name` refers to: the local one where there
    /// is one, else the global one. Fails where the name is not declared.
    pub fn get_var(&self, name: &str) -> (r: Result<Symbol, &'static str>)
        ensures
            match spec_lookup(self@, name@) {
                Some(s) => r matches Ok(sym) && sym@ == s,
                None => r matches Err(e) && e@ == "Variable not declared"@,
            },
            self@.lst.symbols.contains_key(name@) ==> (r matches Ok(sym) && sym@ == self@.lst.symbols[name@]),
            !self@.lst.symbols.contains_key(name@) && self@.gst.symbols.contains_key(name@) ==> (r matches Ok(
                sym,
            ) && sym@ == self@.gst.symbols[name@]),
            r is Err <==> !self@.lst.symbols.contains_key(name@) && !self@.gst.symbols.contains_key(name@),
    {
        match self.lst.get(name) {
            Some(s) => Ok(s.copy()),
            None => match self.gst.get(name) {
                Some(s) => Ok(s.copy()),
                None => Err("Variable not declared"),
            },
        }
    }
}

} // verus!
