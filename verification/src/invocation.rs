//! How pyrometer is run on a contract.
use crate::metadata::{FiestaMetadata, SourceType};
use crate::text::{contains_text, occurs_at, text_contains, texts};
use vstd::prelude::*;
use vstd::string::*;

verus! {

/// What to run pyrometer on.
#[derive(Debug)]
pub struct PyrometerInvocation {
    /// The file to analyse, by its name in the directory of the contract.
    pub file_name: String,
    /// Whether pyrometer is to panic on the errors that it catches.
    pub debug_panic: bool,
}

/// Why pyrometer cannot be run on a contract.
#[derive(Clone, Copy, Debug, PartialEq, Eq, Structural)]
pub enum InvocationError {
    /// The sources of the contract are not known.
    NoSource,
    /// None of the source files defines the contract.
    ContractNotFound,
}

/// What the text of a file holds that defines the contract `contract_name`.
pub open spec fn definition(contract_name: Seq<char>) -> Seq<char> {
    "contract "@ + contract_name + " "@
}

/// The file defines the contract `contract_name`.
pub open spec fn defines(file: (String, String), contract_name: Seq<char>) -> bool {
    contains_text(file.1@, definition(contract_name))
}

/// The place of the first file that defines the contract `contract_name`.
pub fn find_defining_file(files: &Vec<(String, String)>, contract_name: &str) -> (found: Option<
    usize,
>)
    ensures
        match found {
            Some(i) => {
                &&& i < files@.len()
                &&& defines(files@[i as int], contract_name@)
                &&& forall|j: int| 0 <= j < i ==> !defines(#[trigger] files@[j], contract_name@)
            },
            None => forall|j: int|
                0 <= j < files@.len() ==> !defines(#[trigger] files@[j], contract_name@),
        },
{
    let wanted = "contract ".to_owned().concat(contract_name).concat(" ");
    let mut k: usize = 0;
    while k < files.len()
        invariant
            wanted@ == definition(contract_name@),
            k <= files@.len(),
            forall|j: int| 0 <= j < k ==> !defines(#[trigger] files@[j], contract_name@),
        decreases files@.len() - k,
    {
        if text_contains(files[k].1.as_str(), wanted.as_str()) {
            return Some(k);
        }
        k += 1;
    }
    None
}

/// `invocation` is how pyrometer is run on a contract: on `main.sol` where that
/// is all there is, then with a panic on caught errors, on the first file that
/// defines the contract where there are several, and on the source code
/// metadata where there is some.
pub open spec fn is_invocation_for(
    invocation: Result<PyrometerInvocation, InvocationError>,
    metadata: FiestaMetadata,
) -> bool {
    match metadata.source_type {
        None => invocation == Err::<PyrometerInvocation, InvocationError>(
            InvocationError::NoSource,
        ),
        Some(SourceType::SingleMain(_)) => {
            &&& invocation matches Ok(run)
            &&& run.file_name@ == "main.sol"@
            &&& run.debug_panic
        },
        Some(SourceType::Multiple(files)) => match invocation {
            Ok(run) => {
                &&& !run.debug_panic
                &&& exists|i: int|
                    {
                        &&& 0 <= i < files@.len()
                        &&& defines(#[trigger] files@[i], metadata.contract_name@)
                        &&& forall|j: int|
                            0 <= j < i ==> !defines(
                                #[trigger] files@[j],
                                metadata.contract_name@,
                            )
                        &&& run.file_name@ == files@[i].0@
                    }
            },
            Err(error) => {
                &&& error == InvocationError::ContractNotFound
                &&& forall|j: int|
                    0 <= j < files@.len() ==> !defines(
                        #[trigger] files@[j],
                        metadata.contract_name@,
                    )
            },
        },
        Some(SourceType::EtherscanMetadata(_)) => {
            &&& invocation matches Ok(run)
            &&& run.file_name@ == "contract.json"@
            &&& !run.debug_panic
        },
    }
}

/// Tells how pyrometer is run on a contract.
pub fn pyrometer_invocation(metadata: &FiestaMetadata) -> (invocation: Result<
    PyrometerInvocation,
    InvocationError,
>)
    ensures
        is_invocation_for(invocation, *metadata),
{
    match &metadata.source_type {
        None => Err(InvocationError::NoSource),
        Some(SourceType::SingleMain(_)) => Ok(
            PyrometerInvocation { file_name: "main.sol".to_owned(), debug_panic: true },
        ),
        Some(SourceType::Multiple(files)) => match find_defining_file(
            files,
            metadata.contract_name.as_str(),
        ) {
            Some(i) => Ok(
                PyrometerInvocation { file_name: files[i].0.clone(), debug_panic: false },
            ),
            None => Err(InvocationError::ContractNotFound),
        },
        Some(SourceType::EtherscanMetadata(_)) => Ok(
            PyrometerInvocation { file_name: "contract.json".to_owned(), debug_panic: false },
        ),
    }
}

/// The arguments of a pyrometer process.
pub open spec fn arguments(path_to_file: Seq<char>, debug_panic: bool) -> Seq<Seq<char>> {
    if debug_panic {
        seq![path_to_file, "--debug"@, "--debug-panic"@]
    } else {
        seq![path_to_file, "--debug"@]
    }
}

impl PyrometerInvocation {
    /// The arguments of the pyrometer process, where the file to analyse is at `path_to_file`.
    pub fn args(&self, path_to_file: &str) -> (args: Vec<String>)
        ensures
            texts(args@) == arguments(path_to_file@, self.debug_panic),
    {
        let mut args: Vec<String> = Vec::new();
        args.push(path_to_file.to_owned());
        args.push("--debug".to_owned());
        if self.debug_panic {
            args.push("--debug-panic".to_owned());
        }
        assert(texts(args@) =~= arguments(path_to_file@, self.debug_panic));
        args
    }
}

/// Where a release build leaves the pyrometer binary, below the directory of
/// pyrometer's manifest.
pub fn pyrometer_binary() -> (path: Vec<String>)
    ensures
        texts(path@) == seq!["target"@, "release"@, "pyrometer"@],
{
    let mut path: Vec<String> = Vec::new();
    path.push("target".to_owned());
    path.push("release".to_owned());
    path.push("pyrometer".to_owned());
    assert(texts(path@) =~= seq!["target"@, "release"@, "pyrometer"@]);
    path
}

/// A file defines a contract exactly where its text holds, at some one place,
/// the word `contract` and a space, then the name of the contract, then a space.
pub proof fn definition_is_keyword_name_and_space(file: (String, String), name: Seq<char>)
    ensures
        defines(file, name) <==> exists|at: int|
            {
                &&& 0 <= at
                &&& at + 9 + name.len() < file.1@.len()
                &&& #[trigger] file.1@.subrange(at, at + 9) == "contract "@
                &&& file.1@.subrange(at + 9, at + 9 + name.len()) == name
                &&& file.1@[at + 9 + name.len()] == ' '
            },
{
    reveal_strlit("contract ");
    reveal_strlit(" ");
    let text = file.1@;
    let wanted = definition(name);
    assert(wanted.len() == 10 + name.len());
    if defines(file, name) {
        let at = choose|at: int| occurs_at(text, wanted, at);
        let found = text.subrange(at, at + wanted.len());
        assert(text.subrange(at, at + 9) =~= found.subrange(0, 9));
        assert(found.subrange(0, 9) =~= "contract "@);
        assert(text.subrange(at + 9, at + 9 + name.len()) =~= found.subrange(
            9,
            9 + name.len() as int,
        ));
        assert(found.subrange(9, 9 + name.len() as int) =~= name);
        assert(text[at + 9 + name.len()] == found[9 + name.len() as int]);
    }
    if exists|at: int|
        {
            &&& 0 <= at
            &&& at + 9 + name.len() < text.len()
            &&& #[trigger] text.subrange(at, at + 9) == "contract "@
            &&& text.subrange(at + 9, at + 9 + name.len()) == name
            &&& text[at + 9 + name.len()] == ' '
        } {
        let at = choose|at: int|
            {
                &&& 0 <= at
                &&& at + 9 + name.len() < text.len()
                &&& #[trigger] text.subrange(at, at + 9) == "contract "@
                &&& text.subrange(at + 9, at + 9 + name.len()) == name
                &&& text[at + 9 + name.len()] == ' '
            };
        let found = text.subrange(at, at + wanted.len());
        assert forall|i: int| 0 <= i < wanted.len() implies found[i] == wanted[i] by {
            if i < 9 {
                assert(found[i] == text.subrange(at, at + 9)[i]);
            } else if i < 9 + name.len() {
                assert(found[i] == text.subrange(at + 9, at + 9 + name.len())[i - 9]);
            }
        }
        assert(found =~= wanted);
        assert(occurs_at(text, wanted, at));
    }
}

/// Among several files, the one that pyrometer is run on holds the definition of
/// the contract, and no earlier one does: the word `contract` and a space, the
/// name and a space, next to one another. Where no file holds it, none is chosen.
pub proof fn chosen_file_is_the_first_with_the_definition(
    invocation: Result<PyrometerInvocation, InvocationError>,
    metadata: FiestaMetadata,
    files: Vec<(String, String)>,
)
    requires
        is_invocation_for(invocation, metadata),
        metadata.source_type == Some(SourceType::Multiple(files)),
    ensures
        ({
            let name = metadata.contract_name@;
            let end = 9 + name.len() as int;
            match invocation {
                Ok(run) => exists|i: int|
                    {
                        &&& 0 <= i < files@.len()
                        &&& run.file_name@ == (#[trigger] files@[i]).0@
                        &&& exists|at: int|
                            {
                                &&& 0 <= at
                                &&& at + end < files@[i].1@.len()
                                &&& #[trigger] files@[i].1@.subrange(at, at + 9) == "contract "@
                                &&& files@[i].1@.subrange(at + 9, at + end) == name
                                &&& files@[i].1@[at + end] == ' '
                            }
                        &&& forall|j: int, at: int|
                            {
                                &&& 0 <= j < i
                                &&& 0 <= at
                                &&& at + end < files@[j].1@.len()
                                &&& #[trigger] files@[j].1@.subrange(at, at + 9) == "contract "@
                                &&& files@[j].1@.subrange(at + 9, at + end) == name
                            } ==> files@[j].1@[at + end] != ' '
                    },
                Err(_) => forall|j: int, at: int|
                    {
                        &&& 0 <= j < files@.len()
                        &&& 0 <= at
                        &&& at + end < files@[j].1@.len()
                        &&& #[trigger] files@[j].1@.subrange(at, at + 9) == "contract "@
                        &&& files@[j].1@.subrange(at + 9, at + end) == name
                    } ==> files@[j].1@[at + end] != ' ',
            }
        }),
{
    let name = metadata.contract_name@;
    assert forall|i: int, at: int|
        {
            &&& 0 <= at
            &&& at + 9 + name.len() < files@[i].1@.len()
            &&& #[trigger] files@[i].1@.subrange(at, at + 9) == "contract "@
            &&& files@[i].1@.subrange(at + 9, at + 9 + name.len()) == name
            &&& files@[i].1@[at + 9 + name.len()] == ' '
        } implies defines(files@[i], name) by {
        definition_is_keyword_name_and_space(files@[i], name);
    }
    if let Ok(run) = invocation {
        let i = choose|i: int|
            {
                &&& 0 <= i < files@.len()
                &&& defines(#[trigger] files@[i], name)
                &&& forall|j: int| 0 <= j < i ==> !defines(#[trigger] files@[j], name)
                &&& run.file_name@ == files@[i].0@
            };
        definition_is_keyword_name_and_space(files@[i], name);
        assert(run.file_name@ == files@[i].0@);
    } else {
        only_undefined_contracts_are_refused(invocation, metadata);
        assert forall|j: int, at: int|
            {
                &&& 0 <= j < files@.len()
                &&& 0 <= at
                &&& at + 9 + name.len() < files@[j].1@.len()
                &&& #[trigger] files@[j].1@.subrange(at, at + 9) == "contract "@
                &&& files@[j].1@.subrange(at + 9, at + 9 + name.len()) == name
            } implies files@[j].1@[at + 9 + name.len()] != ' ' by {
            assert(!defines(files@[j], name));
        }
    }
}

/// Pyrometer is handed the path first and `--debug` next, and `--debug-panic`
/// after these exactly where the contract is a single file. The file is
/// `main.sol` then, and `contract.json` where there is source code metadata.
pub proof fn a_single_file_is_run_with_debug_panic(
    run: PyrometerInvocation,
    metadata: FiestaMetadata,
    path_to_file: Seq<char>,
)
    requires
        is_invocation_for(Ok(run), metadata),
    ensures
        ({
            let args = arguments(path_to_file, run.debug_panic);
            let sources = metadata.source_type->0;
            &&& metadata.source_type is Some
            &&& args.len() == 2 || args.len() == 3
            &&& args[0] == path_to_file
            &&& args[1] == "--debug"@
            &&& args.len() == 3 <==> sources is SingleMain
            &&& args.len() == 3 ==> args[2] == "--debug-panic"@
            &&& sources is SingleMain ==> run.file_name@ == "main.sol"@
            &&& sources is EtherscanMetadata ==> run.file_name@ == "contract.json"@
        }),
{
}

/// A contract whose sources are one file or source code metadata can always be
/// analysed. One with several files can be unless none of them defines it.
pub proof fn only_undefined_contracts_are_refused(
    invocation: Result<PyrometerInvocation, InvocationError>,
    metadata: FiestaMetadata,
)
    requires
        is_invocation_for(invocation, metadata),
    ensures
        invocation is Err <==> match metadata.source_type {
            None => true,
            Some(SourceType::Multiple(files)) => forall|j: int|
                0 <= j < files@.len() ==> !defines(#[trigger] files@[j], metadata.contract_name@),
            Some(_) => false,
        },
{
}

} // verus!
