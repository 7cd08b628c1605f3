//! What the interpreter of build files knows of the cell it runs in.

use vstd::prelude::*;

verus! {

/// The cell that a build file belongs to, by name.
#[derive(Clone, Copy, Debug, PartialEq, Eq)]
pub struct BuildFileCell {
    pub name: &'static str,
}

/// Where each cell of the project lies: its name and its path from the
/// project root.
#[derive(Clone, Debug, PartialEq, Eq)]
pub struct CellResolver {
    pub cells: Vec<(String, String)>,
}

/// How the aliases that one cell uses resolve: each alias and the name of
/// the cell it stands for.
#[derive(Clone, Debug, PartialEq, Eq)]
pub struct CellAliasResolver {
    pub current: String,
    pub aliases: Vec<(String, String)>,
}

/// The cell of the build file being interpreted, with the resolvers that
/// the interpreter uses for labels in it.
#[derive(Clone, Debug)]
pub struct InterpreterCellInfo {
    cell_name: BuildFileCell,
    cell_resolver: CellResolver,
    cell_alias_resolver: CellAliasResolver,
}

impl InterpreterCellInfo {
    pub closed spec fn spec_cell_name(&self) -> BuildFileCell {
        self.cell_name
    }

    pub closed spec fn spec_cell_resolver(&self) -> CellResolver {
        self.cell_resolver
    }

    pub closed spec fn spec_cell_alias_resolver(&self) -> CellAliasResolver {
        self.cell_alias_resolver
    }

    /// Bundles the three; this never fails.
    pub fn new(
        cell_name: BuildFileCell,
        cell_resolver: CellResolver,
        cell_alias_resolver: CellAliasResolver,
    ) -> (res: Result<Self, crate::error::Buck2Error>)
        ensures
            res matches Ok(info) && info.spec_cell_name() == cell_name
                && info.spec_cell_resolver() == cell_resolver
                && info.spec_cell_alias_resolver() == cell_alias_resolver,
    {
        Ok(Self { cell_name, cell_resolver, cell_alias_resolver })
    }

    pub fn name(&self) -> (res: BuildFileCell)
        ensures
            res == self.spec_cell_name(),
    {
        self.cell_name
    }

    pub fn cell_resolver(&self) -> (res: &CellResolver)
        ensures
            *res == self.spec_cell_resolver(),
    {
        &self.cell_resolver
    }

    pub fn cell_alias_resolver(&self) -> (res: &CellAliasResolver)
        ensures
            *res == self.spec_cell_alias_resolver(),
    {
        &self.cell_alias_resolver
    }
}

} // verus!
