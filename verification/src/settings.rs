//! What a run is set to do where the user leaves it open.
use vstd::prelude::*;
use vstd::string::*;

verus! {

/// How many contracts are analysed where no number is given.
pub const DEFAULT_NUM_CONTRACTS: usize = 1000;

/// How many contracts are analysed at most: the given number, as many as can be
/// counted where that is zero, and the default where none is given.
pub open spec fn contract_limit(num_contracts: Option<usize>) -> usize {
    match num_contracts {
        Some(given) => if given == 0 {
            usize::MAX
        } else {
            given
        },
        None => DEFAULT_NUM_CONTRACTS,
    }
}

/// A given number of contracts is kept unless it is zero. No number stands for
/// a thousand, and zero for more than any other number.
pub proof fn given_number_is_the_limit(given: usize)
    ensures
        given != 0 ==> contract_limit(Some(given)) == given,
        given <= contract_limit(Some(0)),
        contract_limit(None) == 1000,
{
}

/// How many contracts to analyse: the given number, every contract where that
/// is zero, and the default where none is given.
pub fn get_num_contracts(num_contracts: Option<usize>) -> (limit: usize)
    ensures
        limit == contract_limit(num_contracts),
        limit > 0,
{
    match num_contracts {
        Some(given) => {
            if given == 0 {
                usize::MAX
            } else {
                given
            }
        },
        None => DEFAULT_NUM_CONTRACTS,
    }
}

/// Calls `num_cpus::get`, which tells how many processors are available here:
/// at least one, and nothing more can be said.
#[verifier::external_body]
fn available_cpus() -> (cpus: usize)
    ensures
        cpus >= 1,
{
    num_cpus::get()
}

/// How many processes to run at a time: the given number, or one for each of
/// `cpus` processors.
pub fn job_limit(jobs: Option<u8>, cpus: usize) -> (limit: usize)
    ensures
        limit == (match jobs {
            Some(given) => given as usize,
            None => cpus,
        }),
{
    match jobs {
        Some(given) => given as usize,
        None => cpus,
    }
}

/// How many processes to run at a time: the given number, or one for each
/// processor of this machine.
pub fn get_jobs(jobs: Option<u8>) -> (limit: usize)
    ensures
        jobs matches Some(given) ==> limit == given,
        jobs is None ==> limit >= 1,
{
    match jobs {
        Some(given) => given as usize,
        None => job_limit(None, available_cpus()),
    }
}

/// The form of the time in the name of a results file: month, day, hour and minute.
pub const TIMESTAMP_FORMAT: &'static str = "%m-%d_%H-%M";

/// Two digits stand at `at`, for a number from `low` to `high`.
pub open spec fn two_digits(text: Seq<char>, at: int, low: int, high: int) -> bool {
    let tens = text[at] as int - '0' as int;
    let ones = text[at + 1] as int - '0' as int;
    &&& 0 <= tens <= 9
    &&& 0 <= ones <= 9
    &&& low <= 10 * tens + ones <= high
}

/// `text` is a month, a day, an hour and a minute, as in `MM-DD_HH-MM`.
pub open spec fn is_timestamp(text: Seq<char>) -> bool {
    &&& text.len() == 11
    &&& two_digits(text, 0, 1, 12)
    &&& text[2] == '-'
    &&& two_digits(text, 3, 1, 31)
    &&& text[5] == '_'
    &&& two_digits(text, 6, 0, 23)
    &&& text[8] == '-'
    &&& two_digits(text, 9, 0, 59)
}

/// Calls `chrono::Local::now` and formats what it gives. The clock and the time
/// zone of the machine decide the result: it is some local time in the form
/// asked for. The call panics where the clock is set before 1970 or the time
/// zone data of the machine is broken.
#[verifier::external_body]
fn local_time(format: &str) -> (text: String)
    requires
        format@ == TIMESTAMP_FORMAT@,
    ensures
        is_timestamp(text@),
{
    chrono::Local::now().format(format).to_string()
}

/// Where the results of a run that starts at `timestamp` are written by default.
pub open spec fn default_output_path(timestamp: Seq<char>) -> Seq<char> {
    "./data/results_"@ + timestamp + ".csv"@
}

/// The default path leads to a `.csv` file in `./data`, and the time stands in
/// its name whole: month, day, hour and minute, in this order.
pub proof fn default_path_holds_the_time(timestamp: Seq<char>)
    ensures
        ({
            let path = default_output_path(timestamp);
            let end = 15 + timestamp.len() as int;
            &&& path.len() == end + 4
            &&& path.take(15) == "./data/results_"@
            &&& path.subrange(15, end) == timestamp
            &&& path.skip(end) == ".csv"@
        }),
        TIMESTAMP_FORMAT@ == "%m"@ + "-"@ + "%d"@ + "_"@ + "%H"@ + "-"@ + "%M"@,
{
    reveal_strlit("./data/results_");
    reveal_strlit(".csv");
    reveal_strlit("%m-%d_%H-%M");
    reveal_strlit("%m");
    reveal_strlit("%d");
    reveal_strlit("%H");
    reveal_strlit("%M");
    reveal_strlit("-");
    reveal_strlit("_");
    let path = default_output_path(timestamp);
    let end = 15 + timestamp.len() as int;
    assert(path.take(15) =~= "./data/results_"@);
    assert(path.subrange(15, end) =~= timestamp);
    assert(path.skip(end) =~= ".csv"@);
    assert(TIMESTAMP_FORMAT@ =~= "%m"@ + "-"@ + "%d"@ + "_"@ + "%H"@ + "-"@ + "%M"@);
}

/// Where to write the results: to the given path, or else to a file named after
/// `timestamp`.
pub fn output_path_at(output: Option<String>, timestamp: &str) -> (path: String)
    ensures
        path@ == (match output {
            Some(given) => given@,
            None => default_output_path(timestamp@),
        }),
{
    match output {
        Some(given) => given,
        None => "./data/results_".to_owned().concat(timestamp).concat(".csv"),
    }
}

/// Where to write the results: to the given path, or else to a file named after
/// the local time.
pub fn get_output_path(output: Option<String>) -> (path: String)
    ensures
        output matches Some(given) ==> path@ == given@,
        output is None ==> exists|timestamp: Seq<char>| #[trigger]
            is_timestamp(timestamp) && path@ == default_output_path(timestamp),
{
    match output {
        Some(given) => given,
        None => {
            let timestamp = local_time(TIMESTAMP_FORMAT);
            output_path_at(None, timestamp.as_str())
        },
    }
}

} // verus!
