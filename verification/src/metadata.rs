//! What is known of one contract: its metadata and its sources.
use crate::text::{
    contained_text_has_two_sides, contains_text, starts_with_text, text_contains, text_starts_with,
};
use vstd::prelude::*;

verus! {

/// The sources of one contract.
#[derive(Clone, Debug)]
pub enum SourceType {
    /// The text of the only source file.
    SingleMain(String),
    /// The source files, as pairs of a name and a text, in the order of their names.
    Multiple(Vec<(String, String)>),
    /// The JSON text of source code metadata as Etherscan serves it.
    EtherscanMetadata(String),
}

impl SourceType {
    /// The label of a kind of sources.
    pub open spec fn label(self) -> Seq<char> {
        match self {
            SourceType::SingleMain(_) => "SingleFile"@,
            SourceType::Multiple(_) => "MultipleFiles"@,
            SourceType::EtherscanMetadata(_) => "JSON"@,
        }
    }

    /// The label under which sources of this kind are written down.
    pub fn to_string(&self) -> (label: String)
        ensures
            label@ == self.label(),
    {
        match self {
            SourceType::SingleMain(_) => "SingleFile".to_owned(),
            SourceType::Multiple(_) => "MultipleFiles".to_owned(),
            SourceType::EtherscanMetadata(_) => "JSON".to_owned(),
        }
    }
}

/// The label of a kind of sources holds no comma, and tells the kinds apart.
pub proof fn source_labels_differ(a: SourceType, b: SourceType)
    ensures
        !a.label().contains(','),
        a.label() == b.label() <==> {
            ||| a is SingleMain && b is SingleMain
            ||| a is Multiple && b is Multiple
            ||| a is EtherscanMetadata && b is EtherscanMetadata
        },
{
    reveal_strlit("SingleFile");
    reveal_strlit("MultipleFiles");
    reveal_strlit("JSON");
    assert("SingleFile"@[0] == 'S');
    assert("MultipleFiles"@[0] == 'M');
    assert("JSON"@[0] == 'J');
}

/// The metadata of one contract.
#[derive(Clone, Debug)]
pub struct FiestaMetadata {
    /// The name of the contract.
    pub contract_name: String,
    /// The version of the compiler that the contract was built with.
    pub compiler_version: String,
    /// The runs that the optimizer was tuned for.
    pub runs: i64,
    /// Whether the optimizer was used.
    pub optimization_used: bool,
    /// The hash of the contract's bytecode.
    pub bytecode_hash: String,
    /// The directory that holds the contract.
    pub abs_path_to_dir: String,
    /// The sources of the contract, once they were found.
    pub source_type: Option<SourceType>,
}

/// The label of sources names their kind.
pub proof fn source_label_names_kind(source_type: SourceType)
    ensures
        source_type is SingleMain ==> source_type.label() == "SingleFile"@,
        source_type is Multiple ==> source_type.label() == "MultipleFiles"@,
        source_type is EtherscanMetadata ==> source_type.label() == "JSON"@,
{
}

/// Compilers that pyrometer supports: Solidity in one of the 0.8 versions.
pub open spec fn is_supported_compiler(version: Seq<char>) -> bool {
    starts_with_text(version, "v0.8."@) && !contains_text(version, "vyper"@)
}

/// A compiler is supported exactly where its version begins with `v0.8.` and has
/// `vyper` nowhere in it.
pub proof fn supported_versions_are_solidity(version: Seq<char>)
    ensures
        is_supported_compiler(version) <==> {
            &&& exists|rest: Seq<char>| version == #[trigger] ("v0.8."@ + rest)
            &&& forall|before: Seq<char>, after: Seq<char>|
                version != #[trigger] (before + "vyper"@ + after)
        },
{
    contained_text_has_two_sides(version, "v0.8."@);
    contained_text_has_two_sides(version, "vyper"@);
}

impl FiestaMetadata {
    /// Whether pyrometer supports the compiler of this contract.
    pub fn compiler_is_supported(&self) -> (supported: bool)
        ensures
            supported == is_supported_compiler(self.compiler_version@),
    {
        text_starts_with(self.compiler_version.as_str(), "v0.8.") && !text_contains(
            self.compiler_version.as_str(),
            "vyper",
        )
    }

    /// Notes the directory that holds the contract.
    pub fn update_path_to_dir(&mut self, path_to_dir: &str)
        ensures
            final(self).abs_path_to_dir@ == path_to_dir@,
            *final(self) == (FiestaMetadata {
                abs_path_to_dir: final(self).abs_path_to_dir,
                ..*old(self)
            }),
    {
        self.abs_path_to_dir = path_to_dir.to_owned();
    }

    /// Notes the sources of the contract.
    pub fn update_source_type(&mut self, source_type: SourceType)
        ensures
            *final(self) == (FiestaMetadata { source_type: Some(source_type), ..*old(self) }),
    {
        self.source_type = Some(source_type);
    }
}

} // verus!
