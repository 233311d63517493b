use vstd::prelude::*;

use crate::parser::ast::{id::id_counts::AstIdCounts, jang_file::JangFile};

verus! {

/// A built program: its file and the table of IDs its builder handed out,
/// which tells how large a map indexed by each kind of ID must be.
#[derive(Debug)]
pub struct JangAst {
    file: JangFile,
    id_table: AstIdCounts,
}

impl JangAst {
    pub closed spec fn spec_file(&self) -> JangFile {
        self.file
    }

    pub closed spec fn spec_id_table(&self) -> AstIdCounts {
        self.id_table
    }

    pub fn new(file: JangFile, id_table: AstIdCounts) -> (r: Self)
        ensures
            r.spec_file() == file,
            r.spec_id_table() == id_table,
    {
        JangAst { file, id_table }
    }

    pub fn file(&self) -> (r: &JangFile)
        ensures
            *r == self.spec_file(),
    {
        &self.file
    }

    pub fn id_table(&self) -> (r: &AstIdCounts)
        ensures
            *r == self.spec_id_table(),
    {
        &self.id_table
    }
}

} // verus!
