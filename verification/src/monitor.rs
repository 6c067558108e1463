//! The monitor's view of program output files: a filter turns fresh text
//! into report lines; a file record holds what is still to be reported.
use vstd::prelude::*;
use crate::text::{split_on, split_str};
use crate::filter_rules::{regex_captures, regex_compiles, FilterRules};
use crate::output_filters::{group, group_text, parse_usize, parse_usize_spec, Captures};

verus! {

/// Turns fresh text from an output file into the lines worth reporting.
pub trait FileFilter: Sized {
    /// The filter is set up (its rules are in place).
    spec fn wf(&self) -> bool;

    /// Processing `input` may take the filter from `self` to `after` and
    /// report `out`.
    spec fn processed(&self, input: Seq<char>, after: Self, out: Seq<Seq<char>>) -> bool;

    fn process_text(&mut self, input: &str) -> (res: Vec<String>)
        requires
            old(self).wf(),
        ensures
            final(self).wf(),
            old(self).processed(input@, *final(self), res.deep_view()),
    ;
}

/// The non-empty lines among `ls`, in order.
pub open spec fn non_empty(ls: Seq<Seq<char>>) -> Seq<Seq<char>>
    decreases ls.len(),
{
    if ls.len() == 0 {
        Seq::empty()
    } else if ls.last().len() > 0 {
        non_empty(ls.drop_last()).push(ls.last())
    } else {
        non_empty(ls.drop_last())
    }
}

/// Reports every non-empty line as it is.
pub struct DefaultFilter {}

impl FileFilter for DefaultFilter {
    open spec fn wf(&self) -> bool {
        true
    }

    open spec fn processed(&self, input: Seq<char>, after: Self, out: Seq<Seq<char>>) -> bool {
        out == non_empty(split_on(input, '\n'))
    }

    fn process_text(&mut self, input: &str) -> (res: Vec<String>) {
        let pieces = split_str(input, '\n');
        let ghost p = split_on(input@, '\n');
        let mut res: Vec<String> = Vec::new();
        let mut i: usize = 0;
        while i < pieces.len()
            invariant
                i <= pieces@.len(),
                pieces.deep_view() == p,
                res.deep_view() == non_empty(p.take(i as int)),
            decreases pieces.len() - i,
        {
            assert(p.take(i + 1).drop_last() =~= p.take(i as int));
            assert(pieces.deep_view()[i as int] == pieces@[i as int]@);
            if !pieces[i].as_str().is_empty() {
                let ghost before = res.deep_view();
                res.push(pieces[i].clone());
                assert(res.deep_view() =~= before.push(p[i as int]));
            }
            i = i + 1;
        }
        assert(p.take(p.len() as int) =~= p);
        res
    }
}

/// What the monitor knows of one output file.
pub struct FileRecord {
    /// How far into the file has been read.
    pub position: u64,
    /// Text read but not yet reported.
    pub cache: String,
}

impl FileRecord {
    pub fn new() -> (r: FileRecord)
        ensures
            r.position == 0,
            r.cache@ == Seq::<char>::empty(),
    {
        FileRecord { position: 0, cache: String::new() }
    }

    /// The report lines for the cached text, as the filter `f` makes them.
    /// The process id is not used.
    pub fn summarise<F: FileFilter>(&self, _pid: Option<usize>, f: &mut F) -> (res: Vec<String>)
        requires
            old(f).wf(),
        ensures
            final(f).wf(),
            old(f).processed(self.cache@, *final(f), res.deep_view()),
    {
        f.process_text(self.cache.as_str())
    }
}


/// The directory, under the rig's home directory `home`, that the
/// programmes write their output files to.
pub open spec fn output_dir_spec(home: Seq<char>) -> Seq<char> {
    home + "/output"@
}

/// The output directory under the rig's home directory `home`.
pub fn get_output_dir(home: &str) -> (r: String)
    ensures
        r@ == output_dir_spec(home@),
{
    let mut r = home.to_owned();
    r.append("/output");
    r
}

/// The complete path of the output file `file_name`.
pub fn complete_path(output_dir: &str, file_name: &str) -> (r: String)
    ensures
        r@ == output_dir@ + "/"@ + file_name@,
{
    let mut r = output_dir.to_owned();
    r.append("/");
    r.append(file_name);
    r
}

/// The pattern of output file names: `<Name>.<PID>.err` or
/// `<Name>.<PID>.out` (any three of the letters e, r, o, u, t).
pub open spec fn file_name_pattern() -> Seq<char> {
    "^(.+)\\.(\\d+)\\.([erout]{3}$)"@
}

/// The name (with its suffix, without the process id) and the process id
/// given by the captures `c` of the file name pattern: none when it did
/// not match, or when the process id does not read as a `usize`.
pub open spec fn decoded(c: Captures) -> Option<(Seq<char>, nat)> {
    match c {
        Some(c) => match parse_usize_spec(group(c, 2)) {
            Some(pid) => Some((group(c, 1) + "."@ + group(c, 3), pid)),
            None => None,
        },
        None => None,
    }
}

/// The name (with its suffix, without the process id) and the process id
/// that an output file name holds.
pub open spec fn decode_spec(file_name: Seq<char>) -> Option<(Seq<char>, nat)> {
    decoded(regex_captures(file_name_pattern(), file_name))
}

/// The name and process id given by the captures `c` of the file name
/// pattern on an output file name.
pub fn decode_captures(c: &Option<Vec<Option<String>>>) -> (r: Option<(String, usize)>)
    ensures
        match (r, decoded(c.deep_view())) {
            (Some((n, p)), Some((sn, sp))) => n@ == sn && p == sp,
            (None, None) => true,
            _ => false,
        },
{
    match c {
        Some(c) => {
            let text2 = group_text(c, 2);
            match parse_usize(text2.as_str()) {
                Some(pid) => {
                    let mut name = group_text(c, 1);
                    name.append(".");
                    name.append(group_text(c, 3).as_str());
                    Some((name, pid))
                },
                None => None,
            }
        },
        None => None,
    }
}

/// Break an output file name into its name and process id.
pub fn decode_file_name(file_name: &str) -> (r: Option<(String, usize)>)
    ensures
        regex_compiles(file_name_pattern()) ==> match (r, decode_spec(file_name@)) {
            (Some((n, p)), Some((sn, sp))) => n@ == sn && p == sp,
            (None, None) => true,
            _ => false,
        },
        !regex_compiles(file_name_pattern()) ==> r is None,
{
    let mut rules = FilterRules::new();
    if !rules.add_rule("file_name", "^(.+)\\.(\\d+)\\.([erout]{3}$)") {
        return None;
    }
    let c = rules.evaluate("file_name", file_name);
    decode_captures(&c)
}

/// Which filter reads an output file.
#[derive(PartialEq, Eq, Structural, Debug, Clone, Copy)]
pub enum FilterKind {
    YoshimiErr,
    PdErr,
    YoshimiOut,
    LpxControlErr,
    ModHostOut,
    Default,
}

/// The filter for the output file whose decoded name is `name`.
pub open spec fn filter_for_spec(name: Seq<char>) -> FilterKind {
    if name == "yoshimi.err"@ {
        FilterKind::YoshimiErr
    } else if name == "pd.err"@ {
        FilterKind::PdErr
    } else if name == "yoshimi.out"@ {
        FilterKind::YoshimiOut
    } else if name == "lpx_controll.err"@ {
        FilterKind::LpxControlErr
    } else if name == "mod-host.out"@ {
        FilterKind::ModHostOut
    } else {
        FilterKind::Default
    }
}

/// Each of the five known output files gets its own filter, chosen by
/// its whole decoded name and by nothing else; every other name gets the
/// default filter.
pub proof fn lemma_filter_chosen_by_whole_name(name: Seq<char>)
    ensures
        filter_for_spec(name) == FilterKind::YoshimiErr <==> name == "yoshimi.err"@,
        filter_for_spec(name) == FilterKind::PdErr <==> name == "pd.err"@,
        filter_for_spec(name) == FilterKind::YoshimiOut <==> name == "yoshimi.out"@,
        filter_for_spec(name) == FilterKind::LpxControlErr <==> name == "lpx_controll.err"@,
        filter_for_spec(name) == FilterKind::ModHostOut <==> name == "mod-host.out"@,
        filter_for_spec(name) == FilterKind::Default <==> !(name == "yoshimi.err"@ || name
            == "pd.err"@ || name == "yoshimi.out"@ || name == "lpx_controll.err"@ || name
            == "mod-host.out"@),
{
    reveal_strlit("yoshimi.err");
    reveal_strlit("pd.err");
    reveal_strlit("yoshimi.out");
    reveal_strlit("lpx_controll.err");
    reveal_strlit("mod-host.out");
    assert("yoshimi.err"@[8] != "yoshimi.out"@[8]);
    assert("yoshimi.err"@ != "yoshimi.out"@);
    assert("yoshimi.err"@.len() != "pd.err"@.len());
    assert("yoshimi.err"@.len() != "lpx_controll.err"@.len());
    assert("yoshimi.err"@.len() != "mod-host.out"@.len());
    assert("yoshimi.out"@.len() != "pd.err"@.len());
    assert("yoshimi.out"@.len() != "lpx_controll.err"@.len());
    assert("yoshimi.out"@.len() != "mod-host.out"@.len());
    assert("pd.err"@.len() != "lpx_controll.err"@.len());
    assert("pd.err"@.len() != "mod-host.out"@.len());
    assert("lpx_controll.err"@.len() != "mod-host.out"@.len());
}

/// The filter for the output file whose decoded name is `name`.
pub fn filter_for(name: &str) -> (r: FilterKind)
    ensures
        r == filter_for_spec(name@),
{
    if crate::text::str_eq(name, "yoshimi.err") {
        FilterKind::YoshimiErr
    } else if crate::text::str_eq(name, "pd.err") {
        FilterKind::PdErr
    } else if crate::text::str_eq(name, "yoshimi.out") {
        FilterKind::YoshimiOut
    } else if crate::text::str_eq(name, "lpx_controll.err") {
        FilterKind::LpxControlErr
    } else if crate::text::str_eq(name, "mod-host.out") {
        FilterKind::ModHostOut
    } else {
        FilterKind::Default
    }
}

/// How long, in microseconds, to sleep after a pass of the monitor that
/// took `elapsed` microseconds, to keep to `fps` passes a second; zero or
/// less means the pass overran.
pub fn frame_sleep(elapsed: i64, fps: i64) -> (r: i64)
    requires
        fps > 0,
        1_000_000 - i64::MAX <= elapsed,
    ensures
        r == 1_000_000int / (fps as int) - elapsed,
{
    let target: i64 = 1_000_000 / fps;
    assert(0 <= target <= 1_000_000) by (nonlinear_arith)
        requires
            fps > 0,
            target == 1_000_000int / (fps as int),
    ;
    target - elapsed
}

/// Where to start reading a file of `file_size` bytes that has been read
/// up to `position`: from the start when it has shrunk (it was reset),
/// else from `position`.
pub fn read_start(file_size: u64, position: u64) -> (r: u64)
    ensures
        r == (if file_size < position { 0 } else { position }),
{
    if file_size < position {
        0
    } else {
        position
    }
}

} // verus!
