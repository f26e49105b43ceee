//! Which files of a contract's directory are its sources, and what they make.
use crate::metadata::{FiestaMetadata, SourceType};
use crate::order::{
    is_stable_sort, name_before, names_are_totally_ordered, stable_sort,
    stable_sort_forgets_arrival, tied, Ranked,
};
use crate::text::{chars_of, texts};
use vstd::prelude::*;

verus! {

/// The parsed form of Etherscan's source code metadata.
#[verifier::external_type_specification]
#[verifier::external_body]
pub struct ExSourceCodeMetadata(ethers::etherscan::contract::SourceCodeMetadata);

/// Why `serde_json` refused a text.
#[verifier::external_type_specification]
#[verifier::external_body]
pub struct ExJsonError(serde_json::Error);

/// `serde_json::from_str` reads `json` as a
/// `ethers::etherscan::contract::SourceCodeMetadata`.
pub uninterp spec fn reads_as_source_code_metadata(json: Seq<char>) -> bool;

/// Calls `serde_json::from_str` for a
/// `ethers::etherscan::contract::SourceCodeMetadata`. Whether it succeeds is a
/// function of the text. Nothing is said of the value: it holds hash maps, and
/// nothing here looks into it.
#[verifier::external_body]
fn read_source_code_metadata(json: &str) -> (read: Result<
    ethers::etherscan::contract::SourceCodeMetadata,
    serde_json::Error,
>)
    ensures
        read is Ok <==> reads_as_source_code_metadata(json@),
{
    serde_json::from_str(json)
}

/// Why the sources of a contract could not be told.
#[derive(Clone, Copy, Debug, PartialEq, Eq, Structural)]
pub enum SourceError {
    /// The file at this place of the listing has no extension.
    NoExtension(usize),
    /// The text of `contract.json` is no source code metadata.
    InvalidContractJson,
}

/// The place of the last `.` of `name`, or -1.
pub open spec fn last_dot(name: Seq<char>) -> int
    decreases name.len(),
{
    if name.len() == 0 {
        -1
    } else if name.last() == '.' {
        name.len() - 1
    } else {
        last_dot(name.drop_last())
    }
}

/// The extension of a file name: what follows its last `.`, unless there is
/// none or the name begins with it.
pub open spec fn extension(name: Seq<char>) -> Option<Seq<char>> {
    if last_dot(name) <= 0 {
        None
    } else {
        Some(name.skip(last_dot(name) + 1))
    }
}

/// What [`extension_kind`] tells of a file name.
#[derive(Clone, Copy, Debug, PartialEq, Eq, Structural)]
pub enum ExtensionKind {
    /// There is no extension.
    Missing,
    /// The extension of Solidity files.
    Sol,
    /// Any other extension.
    Other,
}

/// The kind of extension that a file name has.
pub open spec fn kind_of_extension(name: Seq<char>) -> ExtensionKind {
    match extension(name) {
        None => ExtensionKind::Missing,
        Some(extension) => if extension == "sol"@ { ExtensionKind::Sol } else { ExtensionKind::Other },
    }
}

/// Tells the kind of extension that a file name has.
pub fn extension_kind(name: &str) -> (kind: ExtensionKind)
    ensures
        kind == kind_of_extension(name@),
{
    let chars = chars_of(name);
    let len: usize = chars.len();
    let mut end: usize = len;
    assert(name@.take(len as int) =~= name@);
    while end > 0 && chars[end - 1] != '.'
        invariant
            chars@ == name@,
            end <= len == name@.len(),
            last_dot(name@) == last_dot(name@.take(end as int)),
        decreases end,
    {
        assert(name@.take(end as int).drop_last() =~= name@.take(end - 1));
        end -= 1;
    }
    if end <= 1 {
        return ExtensionKind::Missing;
    }
    proof {
        reveal_strlit("sol");
        assert(last_dot(name@) == end - 1);
    }
    if len - end == 3 && chars[end] == 's' && chars[end + 1] == 'o' && chars[end + 2] == 'l' {
        assert(name@.skip(end as int) =~= "sol"@);
        ExtensionKind::Sol
    } else {
        proof {
            if name@.skip(end as int) == "sol"@ {
                let rest = name@.skip(end as int);
                assert(rest.len() == 3 && rest[0] == 's' && rest[1] == 'o' && rest[2] == 'l');
            }
        }
        ExtensionKind::Other
    }
}

/// Whether `name` is the name of a contract's metadata file.
pub fn is_metadata_file(name: &str) -> (found: bool)
    ensures
        found == (name@ == "metadata.json"@),
{
    name.to_owned() == "metadata.json".to_owned()
}

/// Whether `name` is the name of a file with source code metadata.
pub fn is_contract_json(name: &str) -> (found: bool)
    ensures
        found == (name@ == "contract.json"@),
{
    name.to_owned() == "contract.json".to_owned()
}

/// The place of the first file with source code metadata.
pub open spec fn first_contract_json(names: Seq<Seq<char>>) -> Option<int>
    decreases names.len(),
{
    if names.len() == 0 {
        None
    } else {
        match first_contract_json(names.drop_last()) {
            Some(i) => Some(i),
            None => if names.last() == "contract.json"@ { Some(names.len() - 1) } else { None },
        }
    }
}

/// The place of the first file without an extension.
pub open spec fn first_without_extension(names: Seq<Seq<char>>) -> Option<int>
    decreases names.len(),
{
    if names.len() == 0 {
        None
    } else {
        match first_without_extension(names.drop_last()) {
            Some(i) => Some(i),
            None => if extension(names.last()) is None { Some(names.len() - 1) } else { None },
        }
    }
}

/// The places of the Solidity files, in the order of the listing.
pub open spec fn sol_files(names: Seq<Seq<char>>) -> Seq<int>
    decreases names.len(),
{
    if names.len() == 0 {
        Seq::empty()
    } else if extension(names.last()) == Some("sol"@) {
        sol_files(names.drop_last()).push(names.len() - 1)
    } else {
        sol_files(names.drop_last())
    }
}

/// Which files of a contract's directory to read. Files are given by their
/// place in the listing of the directory.
#[derive(Clone, Debug)]
pub enum SourcePlan {
    /// The file with source code metadata.
    ContractJson(usize),
    /// The only Solidity file.
    SingleSol(usize),
    /// All the Solidity files, in the order of the listing.
    MultipleSol(Vec<usize>),
    /// The directory holds no sources.
    NoSources,
}

/// The mathematical value of a [`SourcePlan`].
pub enum SourcePlanView {
    ContractJson(int),
    SingleSol(int),
    MultipleSol(Seq<int>),
    NoSources,
}

/// The places that a list of indices names.
pub open spec fn places(indices: Seq<usize>) -> Seq<int> {
    indices.map_values(|i: usize| i as int)
}

impl View for SourcePlan {
    type V = SourcePlanView;

    open spec fn view(&self) -> SourcePlanView {
        match *self {
            SourcePlan::ContractJson(i) => SourcePlanView::ContractJson(i as int),
            SourcePlan::SingleSol(i) => SourcePlanView::SingleSol(i as int),
            SourcePlan::MultipleSol(files) => SourcePlanView::MultipleSol(places(files@)),
            SourcePlan::NoSources => SourcePlanView::NoSources,
        }
    }
}

impl SourcePlanView {
    /// The places of the files to read.
    pub open spec fn files(self) -> Seq<int> {
        match self {
            SourcePlanView::ContractJson(i) => seq![i],
            SourcePlanView::SingleSol(i) => seq![i],
            SourcePlanView::MultipleSol(files) => files,
            SourcePlanView::NoSources => Seq::empty(),
        }
    }
}

/// What the Solidity files of a directory amount to: none, one, or several.
pub open spec fn plan_of_sol_files(files: Seq<int>) -> SourcePlanView {
    if files.len() == 0 {
        SourcePlanView::NoSources
    } else if files.len() == 1 {
        SourcePlanView::SingleSol(files[0])
    } else {
        SourcePlanView::MultipleSol(files)
    }
}

/// Which of the files that a contract's directory lists are to be read. Source
/// code metadata goes before Solidity files. Without it, every file must have
/// an extension, or the first that has none is named instead.
pub open spec fn source_plan(names: Seq<Seq<char>>) -> Result<SourcePlanView, int> {
    match first_contract_json(names) {
        Some(i) => Ok(SourcePlanView::ContractJson(i)),
        None => match first_without_extension(names) {
            Some(i) => Err(i),
            None => Ok(plan_of_sol_files(sol_files(names))),
        },
    }
}

/// The place of the first file with source code metadata.
fn find_contract_json(names: &Vec<String>) -> (found: Option<usize>)
    ensures
        found matches Some(i) ==> first_contract_json(texts(names@)) == Some(i as int),
        found is None ==> first_contract_json(texts(names@)) is None,
{
    let ghost all = texts(names@);
    let mut k: usize = 0;
    while k < names.len()
        invariant
            all == texts(names@),
            k <= names@.len(),
            first_contract_json(all.take(k as int)) is None,
        decreases names@.len() - k,
    {
        assert(all.take(k + 1).drop_last() =~= all.take(k as int));
        if is_contract_json(names[k].as_str()) {
            proof {
                first_contract_json_of_prefix(all, k + 1);
            }
            return Some(k);
        }
        k += 1;
    }
    assert(all.take(k as int) =~= all);
    None
}

/// What a prefix of the listing names first, the whole listing names first.
proof fn first_contract_json_of_prefix(names: Seq<Seq<char>>, len: int)
    requires
        0 <= len <= names.len(),
        first_contract_json(names.take(len)) is Some,
    ensures
        first_contract_json(names) == first_contract_json(names.take(len)),
    decreases names.len(),
{
    if len < names.len() {
        assert(names.drop_last().take(len) =~= names.take(len));
        first_contract_json_of_prefix(names.drop_last(), len);
    } else {
        assert(names.take(len) =~= names);
    }
}

proof fn first_without_extension_of_prefix(names: Seq<Seq<char>>, len: int)
    requires
        0 <= len <= names.len(),
        first_without_extension(names.take(len)) is Some,
    ensures
        first_without_extension(names) == first_without_extension(names.take(len)),
    decreases names.len(),
{
    if len < names.len() {
        assert(names.drop_last().take(len) =~= names.take(len));
        first_without_extension_of_prefix(names.drop_last(), len);
    } else {
        assert(names.take(len) =~= names);
    }
}

/// Tells which of the files that a contract's directory lists are to be read.
/// `names` are the names of its files, in the order of the listing.
pub fn plan_contract_sources(names: &Vec<String>) -> (plan: Result<SourcePlan, SourceError>)
    ensures
        match plan {
            Ok(found) => source_plan(texts(names@)) == Ok::<SourcePlanView, int>(found@),
            Err(SourceError::NoExtension(i)) => source_plan(texts(names@)) == Err::<
                SourcePlanView,
                int,
            >(i as int),
            Err(_) => false,
        },
{
    if let Some(i) = find_contract_json(names) {
        return Ok(SourcePlan::ContractJson(i));
    }
    let ghost all = texts(names@);
    let mut files: Vec<usize> = Vec::new();
    let mut k: usize = 0;
    assert(places(files@) =~= sol_files(all.take(0)));
    while k < names.len()
        invariant
            all == texts(names@),
            k <= names@.len(),
            first_contract_json(all) is None,
            first_without_extension(all.take(k as int)) is None,
            places(files@) == sol_files(all.take(k as int)),
        decreases names@.len() - k,
    {
        assert(all.take(k + 1).drop_last() =~= all.take(k as int));
        match extension_kind(names[k].as_str()) {
            ExtensionKind::Missing => {
                proof {
                    first_without_extension_of_prefix(all, k + 1);
                }
                return Err(SourceError::NoExtension(k));
            },
            ExtensionKind::Sol => {
                let ghost listed = files@;
                files.push(k);
                assert(places(files@) =~= places(listed).push(k as int));
            },
            ExtensionKind::Other => {},
        }
        k += 1;
    }
    assert(all.take(k as int) =~= all);
    assert(files@.len() == places(files@).len());
    if files.len() == 0 {
        Ok(SourcePlan::NoSources)
    } else if files.len() == 1 {
        assert(places(files@)[0] == files@[0]);
        Ok(SourcePlan::SingleSol(files[0]))
    } else {
        Ok(SourcePlan::MultipleSol(files))
    }
}

impl SourcePlan {
    /// The places of the files to read, in the order in which they are wanted.
    pub fn files(&self) -> (files: Vec<usize>)
        ensures
            places(files@) == self@.files(),
    {
        let mut files: Vec<usize> = Vec::new();
        match self {
            SourcePlan::ContractJson(i) => {
                files.push(*i);
            },
            SourcePlan::SingleSol(i) => {
                files.push(*i);
            },
            SourcePlan::MultipleSol(listed) => {
                let mut k: usize = 0;
                while k < listed.len()
                    invariant
                        k <= listed@.len(),
                        files@ == listed@.take(k as int),
                    decreases listed@.len() - k,
                {
                    files.push(listed[k]);
                    assert(listed@.take(k + 1) =~= listed@.take(k as int).push(listed@[k as int]));
                    k += 1;
                }
                assert(listed@.take(k as int) =~= listed@);
            },
            SourcePlan::NoSources => {},
        }
        assert(places(files@) =~= self@.files());
        files
    }
}

/// `source` is what the planned files make. `files` are their names and texts.
pub open spec fn is_source_of(
    source: Result<Option<SourceType>, SourceError>,
    plan: SourcePlanView,
    files: Seq<(String, String)>,
) -> bool {
    match plan {
        SourcePlanView::ContractJson(_) => if reads_as_source_code_metadata(files[0].1@) {
            source == Ok::<Option<SourceType>, SourceError>(
                Some(SourceType::EtherscanMetadata(files[0].1)),
            )
        } else {
            source == Err::<Option<SourceType>, SourceError>(SourceError::InvalidContractJson)
        },
        SourcePlanView::SingleSol(_) => source == Ok::<Option<SourceType>, SourceError>(
            Some(SourceType::SingleMain(files[0].1)),
        ),
        SourcePlanView::MultipleSol(_) => {
            &&& source matches Ok(Some(SourceType::Multiple(sorted)))
            &&& is_stable_sort(files, sorted@)
        },
        SourcePlanView::NoSources => source == Ok::<Option<SourceType>, SourceError>(None),
    }
}

/// Makes the sources of a contract out of the files that were planned. `files`
/// are their names and texts, in the order of the plan.
pub fn contract_source(plan: &SourcePlan, files: Vec<(String, String)>) -> (source: Result<
    Option<SourceType>,
    SourceError,
>)
    requires
        files@.len() == plan@.files().len(),
    ensures
        is_source_of(source, plan@, files@),
{
    let mut files = files;
    match plan {
        SourcePlan::ContractJson(_) => match files.pop() {
            Some((_, json)) => match read_source_code_metadata(json.as_str()) {
                Ok(_) => Ok(Some(SourceType::EtherscanMetadata(json))),
                Err(_) => Err(SourceError::InvalidContractJson),
            },
            None => Ok(None),
        },
        SourcePlan::SingleSol(_) => match files.pop() {
            Some((_, text)) => Ok(Some(SourceType::SingleMain(text))),
            None => Ok(None),
        },
        SourcePlan::MultipleSol(_) => Ok(Some(SourceType::Multiple(stable_sort(files)))),
        SourcePlan::NoSources => Ok(None),
    }
}

/// Notes in `metadata` the sources that the planned files make. Nothing changes
/// where there are none, or where they cannot be told.
pub fn collect_contract_sources(
    metadata: &mut FiestaMetadata,
    plan: &SourcePlan,
    files: Vec<(String, String)>,
) -> (noted: Result<(), SourceError>)
    requires
        files@.len() == plan@.files().len(),
    ensures
        match noted {
            Ok(_) => {
                &&& is_source_of(Ok(None), plan@, files@) ==> *final(metadata) == *old(metadata)
                &&& !is_source_of(Ok(None), plan@, files@) ==> {
                    &&& final(metadata).source_type is Some
                    &&& is_source_of(Ok(final(metadata).source_type), plan@, files@)
                    &&& *final(metadata) == (FiestaMetadata {
                        source_type: final(metadata).source_type,
                        ..*old(metadata)
                    })
                }
            },
            Err(error) => {
                &&& is_source_of(Err(error), plan@, files@)
                &&& *final(metadata) == *old(metadata)
            },
        },
{
    match contract_source(plan, files) {
        Ok(Some(source)) => {
            metadata.update_source_type(source);
            Ok(())
        },
        Ok(None) => Ok(()),
        Err(error) => Err(error),
    }
}

/// Source code metadata is taken wherever a directory holds it, whatever else
/// the directory holds.
pub proof fn contract_json_goes_first(names: Seq<Seq<char>>)
    ensures
        names.contains("contract.json"@) <==> source_plan(names) matches Ok(
            SourcePlanView::ContractJson(_),
        ),
        source_plan(names) matches Ok(SourcePlanView::ContractJson(i)) ==> 0 <= i < names.len()
            && names[i] == "contract.json"@,
    decreases names.len(),
{
    if names.len() > 0 {
        let rest = names.drop_last();
        contract_json_goes_first(rest);
        if names.contains("contract.json"@) {
            let i = choose|i: int| 0 <= i < names.len() && names[i] == "contract.json"@;
            if i < rest.len() {
                assert(rest[i] == "contract.json"@);
                assert(rest.contains("contract.json"@));
            }
        }
        if rest.contains("contract.json"@) {
            let i = choose|i: int| 0 <= i < rest.len() && rest[i] == "contract.json"@;
            assert(names[i] == "contract.json"@);
        }
        if names.last() == "contract.json"@ {
            assert(names[names.len() - 1] == "contract.json"@);
        }
    }
}

/// Once a listing holds source code metadata, the files that follow change
/// nothing: the listing may end there.
pub proof fn listing_may_end_at_contract_json(names: Seq<Seq<char>>, more: Seq<Seq<char>>)
    requires
        names.contains("contract.json"@),
    ensures
        source_plan(names + more) == source_plan(names),
{
    contract_json_goes_first(names);
    assert((names + more).take(names.len() as int) =~= names);
    first_contract_json_of_prefix(names + more, names.len() as int);
}

/// A plan names files of the listing only, each one once and in the order of
/// the listing.
pub proof fn plan_stays_in_listing(names: Seq<Seq<char>>)
    ensures
        source_plan(names) matches Ok(plan) ==> {
            &&& forall|i: int|
                0 <= i < plan.files().len() ==> 0 <= #[trigger] plan.files()[i] < names.len()
            &&& forall|i: int, j: int|
                0 <= i < j < plan.files().len() ==> #[trigger] plan.files()[i]
                    < #[trigger] plan.files()[j]
        },
{
    contract_json_goes_first(names);
    sol_files_stay_in_listing(names);
}

/// The extension of a file name holds no `.` and stands behind one that does not
/// begin the name.
pub proof fn extension_stands_behind_the_last_dot(name: Seq<char>, ending: Seq<char>)
    ensures
        extension(name) == Some(ending) <==> {
            &&& !ending.contains('.')
            &&& exists|stem: Seq<char>| stem.len() > 0 && name == #[trigger] (stem + "."@ + ending)
        },
{
    reveal_strlit(".");
    last_dot_is_right(name);
    let dot = last_dot(name);
    if extension(name) == Some(ending) {
        assert forall|i: int| 0 <= i < ending.len() implies ending[i] != '.' by {
            assert(ending[i] == name[dot + 1 + i]);
        }
        assert(name =~= name.take(dot) + "."@ + ending);
    }
    if !ending.contains('.') && exists|stem: Seq<char>|
        stem.len() > 0 && name == #[trigger] (stem + "."@ + ending) {
        let stem = choose|stem: Seq<char>|
            stem.len() > 0 && name == #[trigger] (stem + "."@ + ending);
        assert(name[stem.len() as int] == '.');
        if dot > stem.len() {
            assert(name[dot] == ending[dot - stem.len() - 1]);
            assert(ending.contains(ending[dot - stem.len() - 1]));
        }
        assert(dot == stem.len());
        assert(name.skip(dot + 1) =~= ending);
    }
}

proof fn last_dot_is_right(name: Seq<char>)
    ensures
        -1 <= last_dot(name) < name.len(),
        last_dot(name) >= 0 ==> name[last_dot(name)] == '.',
        forall|i: int| last_dot(name) < i < name.len() ==> #[trigger] name[i] != '.',
    decreases name.len(),
{
    if name.len() > 0 && name.last() != '.' {
        let rest = name.drop_last();
        last_dot_is_right(rest);
        assert forall|i: int| last_dot(name) < i < name.len() implies #[trigger] name[i]
            != '.' by {
            if i < rest.len() {
                assert(rest[i] == name[i]);
            }
        }
    }
}

proof fn first_contract_json_is_right(names: Seq<Seq<char>>)
    ensures
        match first_contract_json(names) {
            Some(i) => {
                &&& 0 <= i < names.len()
                &&& names[i] == "contract.json"@
                &&& forall|j: int| 0 <= j < i ==> #[trigger] names[j] != "contract.json"@
            },
            None => !names.contains("contract.json"@),
        },
    decreases names.len(),
{
    if names.len() > 0 {
        let rest = names.drop_last();
        first_contract_json_is_right(rest);
        assert forall|j: int| 0 <= j < rest.len() implies rest[j] == #[trigger] names[j] by {}
        if first_contract_json(rest) is None {
            assert forall|j: int| 0 <= j < rest.len() implies #[trigger] names[j]
                != "contract.json"@ by {
                assert(rest.contains(rest[j]));
            }
        }
    }
}

proof fn first_without_extension_is_right(names: Seq<Seq<char>>)
    ensures
        match first_without_extension(names) {
            Some(i) => {
                &&& 0 <= i < names.len()
                &&& extension(names[i]) is None
                &&& forall|j: int| 0 <= j < i ==> extension(#[trigger] names[j]) is Some
            },
            None => forall|j: int|
                0 <= j < names.len() ==> extension(#[trigger] names[j]) is Some,
        },
    decreases names.len(),
{
    if names.len() > 0 {
        let rest = names.drop_last();
        first_without_extension_is_right(rest);
        assert forall|j: int| 0 <= j < rest.len() implies rest[j] == #[trigger] names[j] by {}
    }
}

proof fn sol_files_are_right(names: Seq<Seq<char>>)
    ensures
        forall|i: int|
            sol_files(names).contains(i) <==> 0 <= i < names.len() && extension(#[trigger] names[i])
                == Some("sol"@),
    decreases names.len(),
{
    if names.len() > 0 {
        let rest = names.drop_last();
        let earlier = sol_files(rest);
        let all = sol_files(names);
        sol_files_are_right(rest);
        assert forall|i: int|
            all.contains(i) <==> 0 <= i < names.len() && extension(#[trigger] names[i]) == Some(
                "sol"@,
            ) by {
            if 0 <= i < rest.len() {
                assert(rest[i] == names[i]);
            }
            if all.contains(i) {
                let k = choose|k: int| 0 <= k < all.len() && all[k] == i;
                if k < earlier.len() {
                    assert(earlier[k] == i);
                    assert(earlier.contains(i));
                    assert(rest[i] == names[i]);
                }
            }
            if earlier.contains(i) {
                let k = choose|k: int| 0 <= k < earlier.len() && earlier[k] == i;
                assert(all[k] == i);
                assert(rest[i] == names[i]);
            }
            if i == names.len() - 1 && extension(names[i]) == Some("sol"@) {
                assert(all[all.len() - 1] == i);
            }
        }
    }
}

/// A plan names every source. Without source code metadata it names every
/// Solidity file and nothing else: the only one, or all of several. With it, it
/// names the first file that holds some. Without it, every file of a listing
/// that was planned has an extension.
pub proof fn plan_names_every_source(names: Seq<Seq<char>>, plan: SourcePlan)
    requires
        source_plan(names) == Ok::<SourcePlanView, int>(plan@),
    ensures
        match plan {
            SourcePlan::ContractJson(i) => {
                &&& i < names.len()
                &&& names[i as int] == "contract.json"@
                &&& forall|j: int| 0 <= j < i ==> #[trigger] names[j] != "contract.json"@
            },
            SourcePlan::SingleSol(i) => {
                &&& i < names.len()
                &&& forall|j: int|
                    0 <= j < names.len() ==> (extension(#[trigger] names[j]) == Some("sol"@) <==> j
                        == i)
            },
            SourcePlan::MultipleSol(files) => {
                &&& files@.len() >= 2
                &&& forall|j: int|
                    0 <= j < names.len() ==> (extension(#[trigger] names[j]) == Some("sol"@)
                        <==> exists|k: int| 0 <= k < files@.len() && #[trigger] files@[k] == j)
                &&& forall|k: int| 0 <= k < files@.len() ==> #[trigger] files@[k] < names.len()
                &&& forall|k: int, l: int|
                    0 <= k < l < files@.len() ==> #[trigger] files@[k] < #[trigger] files@[l]
            },
            SourcePlan::NoSources => forall|j: int|
                0 <= j < names.len() ==> extension(#[trigger] names[j]) != Some("sol"@),
        },
        plan !is ContractJson ==> {
            &&& !names.contains("contract.json"@)
            &&& forall|j: int| 0 <= j < names.len() ==> extension(#[trigger] names[j]) is Some
        },
{
    first_contract_json_is_right(names);
    first_without_extension_is_right(names);
    sol_files_are_right(names);
    sol_files_stay_in_listing(names);
    let listed = sol_files(names);
    match plan {
        SourcePlan::ContractJson(_) => {},
        SourcePlan::SingleSol(i) => {
            assert(listed[0] == i);
            assert(listed =~= seq![i as int]);
        },
        SourcePlan::MultipleSol(files) => {
            assert(listed == places(files@));
            assert forall|k: int| 0 <= k < files@.len() implies listed[k] == #[trigger] files@[k] by {}
            assert forall|j: int| 0 <= j < names.len() implies (extension(#[trigger] names[j])
                == Some("sol"@) <==> exists|k: int|
                0 <= k < files@.len() && #[trigger] files@[k] == j) by {
                if listed.contains(j) {
                    let k = choose|k: int| 0 <= k < listed.len() && listed[k] == j;
                    assert(files@[k] == j);
                }
                if exists|k: int| 0 <= k < files@.len() && #[trigger] files@[k] == j {
                    let k = choose|k: int| 0 <= k < files@.len() && #[trigger] files@[k] == j;
                    assert(listed[k] == j);
                }
            }
        },
        SourcePlan::NoSources => {
            assert forall|j: int| 0 <= j < names.len() implies extension(#[trigger] names[j])
                != Some("sol"@) by {
                assert(!listed.contains(j));
            }
        },
    }
}

/// Sources cannot be planned exactly where a listing holds a file without
/// extension and no source code metadata. The first such file is named.
pub proof fn only_a_missing_extension_stops_a_plan(names: Seq<Seq<char>>, i: int)
    ensures
        source_plan(names) == Err::<SourcePlanView, int>(i) <==> {
            &&& !names.contains("contract.json"@)
            &&& 0 <= i < names.len()
            &&& extension(names[i]) is None
            &&& forall|j: int| 0 <= j < i ==> extension(#[trigger] names[j]) is Some
        },
{
    first_contract_json_is_right(names);
    first_without_extension_is_right(names);
}

/// Planned files make sources, except for source code metadata that cannot be
/// read, which is an error. Where none are planned, there are no sources.
pub proof fn planned_files_make_sources(
    source: Result<Option<SourceType>, SourceError>,
    plan: SourcePlan,
    files: Seq<(String, String)>,
)
    requires
        is_source_of(source, plan@, files),
    ensures
        match plan {
            SourcePlan::ContractJson(_) => if reads_as_source_code_metadata(files[0].1@) {
                source matches Ok(Some(SourceType::EtherscanMetadata(_)))
            } else {
                source matches Err(SourceError::InvalidContractJson)
            },
            SourcePlan::SingleSol(_) => source matches Ok(Some(SourceType::SingleMain(_))),
            SourcePlan::MultipleSol(_) => source matches Ok(Some(SourceType::Multiple(_))),
            SourcePlan::NoSources => source matches Ok(None),
        },
{
}

/// The sources of a contract are what was read of the planned files: the text of
/// the one file, or the names and texts of all of several, none lost and none
/// added, in the order of the bytes of their names.
pub proof fn sources_are_what_was_read(
    source: SourceType,
    plan: SourcePlan,
    files: Seq<(String, String)>,
)
    requires
        is_source_of(Ok(Some(source)), plan@, files),
        files.len() == plan@.files().len(),
    ensures
        match source {
            SourceType::SingleMain(text) => plan is SingleSol && text == files[0].1,
            SourceType::EtherscanMetadata(text) => plan is ContractJson && text == files[0].1,
            SourceType::Multiple(sorted) => {
                &&& plan is MultipleSol
                &&& sorted@.to_multiset() == files.to_multiset()
                &&& forall|i: int, j: int|
                    0 <= i < j < sorted@.len() ==> !name_before(
                        (#[trigger] sorted@[j]).0@,
                        (#[trigger] sorted@[i]).0@,
                    )
            },
        },
        plan !is NoSources,
{
    if let SourceType::Multiple(sorted) = source {
        assert forall|i: int, j: int| 0 <= i < j < sorted@.len() implies !name_before(
            (#[trigger] sorted@[j]).0@,
            (#[trigger] sorted@[i]).0@,
        ) by {
            assert(!sorted@[j].before(sorted@[i]));
        }
    }
}

proof fn sol_files_stay_in_listing(names: Seq<Seq<char>>)
    ensures
        forall|i: int|
            0 <= i < sol_files(names).len() ==> 0 <= #[trigger] sol_files(names)[i] < names.len(),
        forall|i: int, j: int|
            0 <= i < j < sol_files(names).len() ==> #[trigger] sol_files(names)[i]
                < #[trigger] sol_files(names)[j],
    decreases names.len(),
{
    if names.len() > 0 {
        sol_files_stay_in_listing(names.drop_last());
        let all = sol_files(names);
        let rest = sol_files(names.drop_last());
        assert forall|i: int| 0 <= i < all.len() implies 0 <= #[trigger] all[i] < names.len() by {
            if i < rest.len() {
                assert(all[i] == rest[i]);
            }
        }
        assert forall|i: int, j: int| 0 <= i < j < all.len() implies #[trigger] all[i]
            < #[trigger] all[j] by {
            assert(all[i] == rest[i]);
            if j < rest.len() {
                assert(all[j] == rest[j]);
            }
        }
    }
}

/// Where their names differ, several source files make the same sources in
/// whatever order the directory listed them.
pub proof fn listing_order_does_not_matter(
    p: Seq<(String, String)>,
    q: Seq<(String, String)>,
    a: Vec<(String, String)>,
    b: Vec<(String, String)>,
    places: Seq<int>,
    other_places: Seq<int>,
)
    requires
        p.to_multiset() == q.to_multiset(),
        forall|i: int, j: int| 0 <= i < j < p.len() ==> #[trigger] p[i].0@ != #[trigger] p[j].0@,
        is_source_of(
            Ok(Some(SourceType::Multiple(a))),
            SourcePlanView::MultipleSol(places),
            p,
        ),
        is_source_of(
            Ok(Some(SourceType::Multiple(b))),
            SourcePlanView::MultipleSol(other_places),
            q,
        ),
    ensures
        a@ == b@,
{
    assert forall|i: int, j: int| 0 <= i < j < p.len() implies !tied(
        #[trigger] p[i],
        #[trigger] p[j],
    ) by {
        assert(p[i].0@ != p[j].0@);
        names_are_totally_ordered(p[i].0@, p[j].0@);
    }
    stable_sort_forgets_arrival(p, q, a@, b@);
}

} // verus!
