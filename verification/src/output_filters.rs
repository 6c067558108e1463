//! Filters for the output of the programs the rig runs: each picks the
//! lines that matter out of a program's stdout or stderr.
use vstd::prelude::*;
use crate::filter_rules::{regex_captures, regex_compiles, FilterRules};
use crate::monitor::FileFilter;
use crate::text::{decimal, decimal_string, parse_unsigned, parse_unsigned_str, split_on, split_str};

verus! {

/// Text of capture group `k`, empty when the group is absent.
pub open spec fn group(c: Seq<Option<Seq<char>>>, k: int) -> Seq<char> {
    if 0 <= k < c.len() && c[k] is Some {
        c[k]->0
    } else {
        Seq::empty()
    }
}

pub(crate) fn group_text(c: &Vec<Option<String>>, k: usize) -> (r: String)
    ensures
        r@ == group(c.deep_view(), k as int),
{
    if k < c.len() {
        match &c[k] {
            Some(s) => {
                assert(c.deep_view()[k as int] == c@[k as int].deep_view());
                s.clone()
            },
            None => {
                assert(c.deep_view()[k as int] == c@[k as int].deep_view());
                String::new()
            },
        }
    } else {
        String::new()
    }
}

/// The value of a decimal numeral as `str::parse::<usize>` reads it.
pub open spec fn parse_usize_spec(s: Seq<char>) -> Option<nat> {
    parse_unsigned(s, usize::MAX as nat)
}

pub(crate) fn parse_usize(s: &str) -> (r: Option<usize>)
    ensures
        r matches Some(v) ==> parse_usize_spec(s@) == Some(v as nat),
        r is None ==> parse_usize_spec(s@) is None,
{
    match parse_unsigned_str(s, usize::MAX as u64) {
        Some(v) => Some(v as usize),
        None => None,
    }
}

proof fn lemma_filter_map_step(
    ls: Seq<Seq<char>>,
    f: spec_fn(Seq<char>) -> Option<Seq<char>>,
    i: int,
)
    requires
        0 <= i < ls.len(),
    ensures
        ls.take(i + 1).filter_map(f) == ls.take(i).filter_map(f) + (match f(ls[i]) {
            Some(s) => seq![s],
            None => Seq::empty(),
        }),
{
    ls.lemma_filter_map_take_succ(f, i);
}

// ---------------------------------------------------------------- pd.err

/// The capture groups a rule gives on a line: `None` when it does not
/// match.
pub type Captures = Option<Seq<Option<Seq<char>>>>;

/// What a line of Pure Data's stderr reports, given the process id and
/// the captures of its priority rule and its Jack rule on the line.
pub open spec fn pd_reported(pid: usize, running: Captures, jack: Captures) -> Option<Seq<char>> {
    match running {
        Some(c) => Some(decimal(pid as nat) + ":"@ + "Priority: "@ + group(c, 1)),
        None => match jack {
            Some(c) => Some(decimal(pid as nat) + ":"@ + "Pure Data up. Jack-Pipe: "@ + group(c, 1)),
            None => None,
        },
    }
}

/// What a line of Pure Data's stderr reports, given the process id.
pub open spec fn pd_line(pid: usize, l: Seq<char>) -> Option<Seq<char>> {
    pd_reported(
        pid,
        regex_captures("running at (.+) priority"@, l),
        regex_captures("JACK: registered as '(\\S+)'"@, l),
    )
}

/// The report of process `pid` for a line of Pure Data's stderr on which
/// the priority rule gave `running` and the Jack rule gave `jack`.
pub fn pd_report(pid: usize, running: &Option<Vec<Option<String>>>, jack: &Option<Vec<Option<String>>>) -> (r: Option<String>)
    ensures
        r.deep_view() == pd_reported(pid, running.deep_view(), jack.deep_view()),
{
    match running {
        Some(c) => {
            let mut s = decimal_string(pid as u64);
            s.append(":");
            s.append("Priority: ");
            s.append(group_text(c, 1).as_str());
            Some(s)
        },
        None => match jack {
            Some(c) => {
                let mut s = decimal_string(pid as u64);
                s.append(":");
                s.append("Pure Data up. Jack-Pipe: ");
                s.append(group_text(c, 1).as_str());
                Some(s)
            },
            None => None,
        },
    }
}

pub open spec fn pd_line_fn(pid: usize) -> spec_fn(Seq<char>) -> Option<Seq<char>> {
    |l: Seq<char>| pd_line(pid, l)
}

/// Picks the priority and the Jack pipe name out of Pure Data's stderr.
pub struct PdErrFilter {
    pid: usize,
    filter_rules: FilterRules,
}

impl PdErrFilter {
    pub closed spec fn pid_spec(&self) -> usize {
        self.pid
    }

    /// The filter for the Pure Data process `pid`; `None` when a rule's
    /// pattern does not compile.
    pub fn new(pid: usize) -> (r: Option<Self>)
        ensures
            r is Some <==> regex_compiles("running at (.+) priority"@) && regex_compiles(
                "JACK: registered as '(\\S+)'"@,
            ),
            r matches Some(f) ==> f.wf() && f.pid_spec() == pid,
    {
        let mut filter_rules = FilterRules::new();
        if !filter_rules.add_rule("running_rule", "running at (.+) priority") {
            return None;
        }
        if !filter_rules.add_rule("jack_rule", "JACK: registered as '(\\S+)'") {
            return None;
        }
        proof {
            reveal_strlit("running_rule");
            reveal_strlit("jack_rule");
            assert("running_rule"@.len() != "jack_rule"@.len());
        }
        let r = PdErrFilter { filter_rules, pid };
        assert(r.filter_rules@.contains_key("running_rule"@));
        assert(r.filter_rules@["running_rule"@] == "running at (.+) priority"@);
        assert(r.wf());
        Some(r)
    }

    fn line(&self, l: &str) -> (r: Option<String>)
        requires
            self.wf(),
        ensures
            r.deep_view() == pd_line(self.pid, l@),
    {
        let running = self.filter_rules.evaluate("running_rule", l);
        let jack = self.filter_rules.evaluate("jack_rule", l);
        pd_report(self.pid, &running, &jack)
    }
}

impl FileFilter for PdErrFilter {
    closed spec fn wf(&self) -> bool {
        &&& self.filter_rules@.contains_key("running_rule"@)
        &&& self.filter_rules@["running_rule"@] == "running at (.+) priority"@
        &&& self.filter_rules@.contains_key("jack_rule"@)
        &&& self.filter_rules@["jack_rule"@] == "JACK: registered as '(\\S+)'"@
    }

    open spec fn processed(&self, input: Seq<char>, after: Self, out: Seq<Seq<char>>) -> bool {
        &&& after.pid_spec() == self.pid_spec()
        &&& out == split_on(input, '\n').filter_map(pd_line_fn(self.pid_spec()))
    }

    fn process_text(&mut self, input: &str) -> (res: Vec<String>) {
        let ls = split_str(input, '\n');
        let ghost p = split_on(input@, '\n');
        let ghost f = pd_line_fn(self.pid);
        let mut res: Vec<String> = Vec::new();
        let mut i: usize = 0;
        while i < ls.len()
            invariant
                i <= ls@.len(),
                ls.deep_view() == p,
                self.wf(),
                f == pd_line_fn(self.pid),
                res.deep_view() == p.take(i as int).filter_map(f),
            decreases ls.len() - i,
        {
            proof {
                lemma_filter_map_step(p, f, i as int);
            }
            assert(ls.deep_view()[i as int] == ls@[i as int]@);
            let ghost before = res.deep_view();
            match self.line(ls[i].as_str()) {
                Some(s) => {
                    res.push(s);
                    assert(res.deep_view() =~= before + seq![f(p[i as int])->0]);
                },
                None => {},
            }
            i = i + 1;
        }
        assert(p.take(p.len() as int) =~= p);
        res
    }
}


// ------------------------------------------------------------ yoshimi.err

/// What a line of Yoshimi's stderr reports, given the process id and the
/// captures of its socket rule and its result type rule on the line.  A
/// line whose number does not read as a `usize` reports nothing.
pub open spec fn yoshimi_err_reported(pid: usize, socket: Captures, result_type: Captures) -> Option<
    Seq<char>,
> {
    match socket {
        Some(c) => match parse_usize_spec(group(c, 1)) {
            Some(n) => Some(decimal(pid as nat) + ":"@ + "Failed read socket: "@ + decimal(n) + "  "@
                + group(c, 1)),
            None => None,
        },
        None => match result_type {
            Some(c) => match parse_usize_spec(group(c, 1)) {
                Some(n) => Some(decimal(pid as nat) + ":"@ + "Failed read result type: "@ + decimal(n)),
                None => None,
            },
            None => None,
        },
    }
}

/// What a line of Yoshimi's stderr reports, given the process id.
pub open spec fn yoshimi_err_line(pid: usize, l: Seq<char>) -> Option<Seq<char>> {
    yoshimi_err_reported(
        pid,
        regex_captures("Cannot read socket fd = (\\d+) err = (.+)"@, l),
        regex_captures("Could not read result type = (\\d+)"@, l),
    )
}

/// The report of process `pid` for a line of Yoshimi's stderr on which the
/// socket rule gave `socket` and the result type rule gave `result_type`.
pub fn yoshimi_err_report(
    pid: usize,
    socket: &Option<Vec<Option<String>>>,
    result_type: &Option<Vec<Option<String>>>,
) -> (r: Option<String>)
    ensures
        r.deep_view() == yoshimi_err_reported(pid, socket.deep_view(), result_type.deep_view()),
{
    match socket {
        Some(c) => {
            let g = group_text(c, 1);
            match parse_usize(g.as_str()) {
                Some(n) => {
                    let mut s = decimal_string(pid as u64);
                    s.append(":");
                    s.append("Failed read socket: ");
                    s.append(decimal_string(n as u64).as_str());
                    s.append("  ");
                    s.append(g.as_str());
                    Some(s)
                },
                None => None,
            }
        },
        None => match result_type {
            Some(c) => {
                let g = group_text(c, 1);
                match parse_usize(g.as_str()) {
                    Some(n) => {
                        let mut s = decimal_string(pid as u64);
                        s.append(":");
                        s.append("Failed read result type: ");
                        s.append(decimal_string(n as u64).as_str());
                        Some(s)
                    },
                    None => None,
                }
            },
            None => None,
        },
    }
}

pub open spec fn yoshimi_err_line_fn(pid: usize) -> spec_fn(Seq<char>) -> Option<Seq<char>> {
    |l: Seq<char>| yoshimi_err_line(pid, l)
}

/// Picks socket and result type failures out of Yoshimi's stderr.
pub struct YoshimiErrFilter {
    pid: usize,
    filter_rules: FilterRules,
}

impl YoshimiErrFilter {
    pub closed spec fn pid_spec(&self) -> usize {
        self.pid
    }

    /// The filter for the Yoshimi process `pid`; `None` when a rule's
    /// pattern does not compile.
    pub fn new(pid: usize) -> (r: Option<Self>)
        ensures
            r is Some <==> regex_compiles("Cannot read socket fd = (\\d+) err = (.+)"@)
                && regex_compiles("Could not read result type = (\\d+)"@),
            r matches Some(f) ==> f.wf() && f.pid_spec() == pid,
    {
        let mut filter_rules = FilterRules::new();
        if !filter_rules.add_rule("socket_rule", "Cannot read socket fd = (\\d+) err = (.+)") {
            return None;
        }
        if !filter_rules.add_rule("result_type_rule", "Could not read result type = (\\d+)") {
            return None;
        }
        proof {
            reveal_strlit("socket_rule");
            reveal_strlit("result_type_rule");
            assert("socket_rule"@.len() != "result_type_rule"@.len());
        }
        let r = YoshimiErrFilter { filter_rules, pid };
        assert(r.wf());
        Some(r)
    }

    /// Whether the rule `name` is in place.
    pub fn has_rule(&self, name: &str) -> (r: bool)
        ensures
            r == self.rule_names().contains(name@),
    {
        self.filter_rules.has_rule(name)
    }

    pub closed spec fn rule_names(&self) -> Set<Seq<char>> {
        self.filter_rules@.dom()
    }

    fn line(&self, l: &str) -> (r: Option<String>)
        requires
            self.wf(),
        ensures
            r.deep_view() == yoshimi_err_line(self.pid, l@),
    {
        let socket = self.filter_rules.evaluate("socket_rule", l);
        let result_type = self.filter_rules.evaluate("result_type_rule", l);
        yoshimi_err_report(self.pid, &socket, &result_type)
    }
}

impl FileFilter for YoshimiErrFilter {
    closed spec fn wf(&self) -> bool {
        &&& self.filter_rules@.contains_key("socket_rule"@)
        &&& self.filter_rules@["socket_rule"@] == "Cannot read socket fd = (\\d+) err = (.+)"@
        &&& self.filter_rules@.contains_key("result_type_rule"@)
        &&& self.filter_rules@["result_type_rule"@] == "Could not read result type = (\\d+)"@
    }

    open spec fn processed(&self, input: Seq<char>, after: Self, out: Seq<Seq<char>>) -> bool {
        &&& after.pid_spec() == self.pid_spec()
        &&& after.rule_names() == self.rule_names()
        &&& out == split_on(input, '\n').filter_map(yoshimi_err_line_fn(self.pid_spec()))
    }

    fn process_text(&mut self, input: &str) -> (res: Vec<String>) {
        let ls = split_str(input, '\n');
        let ghost p = split_on(input@, '\n');
        let ghost f = yoshimi_err_line_fn(self.pid);
        let mut res: Vec<String> = Vec::new();
        let mut i: usize = 0;
        while i < ls.len()
            invariant
                i <= ls@.len(),
                ls.deep_view() == p,
                self.wf(),
                f == yoshimi_err_line_fn(self.pid),
                res.deep_view() == p.take(i as int).filter_map(f),
            decreases ls.len() - i,
        {
            proof {
                lemma_filter_map_step(p, f, i as int);
            }
            assert(ls.deep_view()[i as int] == ls@[i as int]@);
            let ghost before = res.deep_view();
            match self.line(ls[i].as_str()) {
                Some(s) => {
                    res.push(s);
                    assert(res.deep_view() =~= before + seq![f(p[i as int])->0]);
                },
                None => {},
            }
            i = i + 1;
        }
        assert(p.take(p.len() as int) =~= p);
        res
    }
}

// ---------------------------------------------------------- mod-host.out

/// What a line of mod-host's stdout reports, given the captures of its
/// ready rule on the line: `Ready` when the rule matched.
pub open spec fn mod_host_reported(ready: Captures) -> Option<Seq<char>> {
    if ready is Some {
        Some("Ready"@)
    } else {
        None
    }
}

/// What a line of mod-host's stdout reports.
pub open spec fn mod_host_line(l: Seq<char>) -> Option<Seq<char>> {
    mod_host_reported(regex_captures("^mod-host: mod-host ready!$"@, l))
}

/// The report for a line of mod-host's stdout on which the ready rule gave
/// `ready`.
pub fn mod_host_report(ready: &Option<Vec<Option<String>>>) -> (r: Option<String>)
    ensures
        r.deep_view() == mod_host_reported(ready.deep_view()),
{
    if ready.is_some() {
        Some("Ready".to_owned())
    } else {
        None
    }
}

pub open spec fn mod_host_line_fn() -> spec_fn(Seq<char>) -> Option<Seq<char>> {
    |l: Seq<char>| mod_host_line(l)
}

/// Reports when mod-host says it is ready.
pub struct ModHostOutFilter {
    filter_rules: FilterRules,
}

impl ModHostOutFilter {
    /// The filter; `None` when its rule's pattern does not compile.
    pub fn new() -> (r: Option<Self>)
        ensures
            r is Some <==> regex_compiles("^mod-host: mod-host ready!$"@),
            r matches Some(f) ==> f.wf(),
    {
        let mut filter_rules = FilterRules::new();
        if !filter_rules.add_rule("ready_rule", "^mod-host: mod-host ready!$") {
            return None;
        }
        Some(ModHostOutFilter { filter_rules })
    }
}

impl FileFilter for ModHostOutFilter {
    closed spec fn wf(&self) -> bool {
        &&& self.filter_rules@.contains_key("ready_rule"@)
        &&& self.filter_rules@["ready_rule"@] == "^mod-host: mod-host ready!$"@
    }

    open spec fn processed(&self, input: Seq<char>, after: Self, out: Seq<Seq<char>>) -> bool {
        out == split_on(input, '\n').filter_map(mod_host_line_fn())
    }

    fn process_text(&mut self, input: &str) -> (res: Vec<String>) {
        let ls = split_str(input, '\n');
        let ghost p = split_on(input@, '\n');
        let ghost f = mod_host_line_fn();
        let mut res: Vec<String> = Vec::new();
        let mut i: usize = 0;
        while i < ls.len()
            invariant
                i <= ls@.len(),
                ls.deep_view() == p,
                self.wf(),
                f == mod_host_line_fn(),
                res.deep_view() == p.take(i as int).filter_map(f),
            decreases ls.len() - i,
        {
            proof {
                lemma_filter_map_step(p, f, i as int);
            }
            assert(ls.deep_view()[i as int] == ls@[i as int]@);
            let ghost before = res.deep_view();
            let ready = self.filter_rules.evaluate("ready_rule", ls[i].as_str());
            match mod_host_report(&ready) {
                Some(s) => {
                    res.push(s);
                    assert(res.deep_view() =~= before + seq![f(p[i as int])->0]);
                },
                None => {},
            }
            i = i + 1;
        }
        assert(p.take(p.len() as int) =~= p);
        res
    }
}

// ------------------------------------------------------ lpx_controll.err

/// The pattern that finds the message part of a line that names a place
/// under the rig's home directory `home`.
pub open spec fn strip_pattern(home: Seq<char>) -> Seq<char> {
    "^(.+)\\s+at\\s+"@ + home
}

/// What the line `l` of `lpx_controll`'s stderr reports, given the
/// captures of the mark, information and place rules on it: `MARK` and
/// `Info` lines nothing, a line that names a place its message part (when
/// not empty), any other non-empty line itself.
pub open spec fn lpx_err_reported(l: Seq<char>, mark: Captures, info: Captures, strip: Captures) -> Option<
    Seq<char>,
> {
    if mark is Some {
        None
    } else if info is Some {
        None
    } else {
        match strip {
            Some(c) => if group(c, 1).len() > 0 {
                Some(group(c, 1))
            } else {
                None
            },
            None => if l.len() > 0 {
                Some(l)
            } else {
                None
            },
        }
    }
}

/// What a line of `lpx_controll`'s stderr reports, for a rig whose home
/// directory is `home`.
pub open spec fn lpx_err_line(home: Seq<char>, l: Seq<char>) -> Option<Seq<char>> {
    lpx_err_reported(
        l,
        regex_captures("^MARK"@, l),
        regex_captures("^Info"@, l),
        regex_captures(strip_pattern(home), l),
    )
}

/// The report for the line `l` of `lpx_controll`'s stderr on which the
/// mark, information and place rules gave `mark`, `info` and `strip`.
pub fn lpx_err_report(
    l: &str,
    mark: &Option<Vec<Option<String>>>,
    info: &Option<Vec<Option<String>>>,
    strip: &Option<Vec<Option<String>>>,
) -> (r: Option<String>)
    ensures
        r.deep_view() == lpx_err_reported(l@, mark.deep_view(), info.deep_view(), strip.deep_view()),
{
    if mark.is_some() {
        return None;
    }
    if info.is_some() {
        return None;
    }
    match strip {
        Some(c) => {
            let g = group_text(c, 1);
            if g.as_str().is_empty() {
                None
            } else {
                Some(g)
            }
        },
        None => {
            if l.is_empty() {
                None
            } else {
                Some(l.to_owned())
            }
        },
    }
}

pub open spec fn lpx_err_line_fn(home: Seq<char>) -> spec_fn(Seq<char>) -> Option<Seq<char>> {
    |l: Seq<char>| lpx_err_line(home, l)
}

/// Drops marks and information lines from `lpx_controll`'s stderr and
/// trims the place from lines that name one.
pub struct LPXControlErrFilter {
    home: String,
    filter_rules: FilterRules,
}

impl LPXControlErrFilter {
    pub closed spec fn home_spec(&self) -> Seq<char> {
        self.home@
    }

    /// The filter for a rig whose home directory is `home`; `None` when a
    /// rule's pattern does not compile.
    pub fn new(home: &str) -> (r: Option<Self>)
        ensures
            r is Some <==> regex_compiles("^MARK"@) && regex_compiles("^Info"@) && regex_compiles(
                strip_pattern(home@),
            ),
            r matches Some(f) ==> f.wf() && f.home_spec() == home@,
    {
        let mut filter_rules = FilterRules::new();
        if !filter_rules.add_rule("mark_rule", "^MARK") {
            return None;
        }
        if !filter_rules.add_rule("info_rule", "^Info") {
            return None;
        }
        let mut strip: String = "^(.+)\\s+at\\s+".to_owned();
        strip.append(home);
        if !filter_rules.add_rule("strip_line_info_rule", strip.as_str()) {
            return None;
        }
        proof {
            reveal_strlit("mark_rule");
            reveal_strlit("info_rule");
            reveal_strlit("strip_line_info_rule");
            assert("mark_rule"@.len() != "strip_line_info_rule"@.len());
            assert("info_rule"@.len() != "strip_line_info_rule"@.len());
            assert("mark_rule"@[0] != "info_rule"@[0]);
        }
        let r = LPXControlErrFilter { home: home.to_owned(), filter_rules };
        assert(r.wf());
        Some(r)
    }

    fn line(&self, l: &str) -> (r: Option<String>)
        requires
            self.wf(),
        ensures
            r.deep_view() == lpx_err_line(self.home@, l@),
    {
        let mark = self.filter_rules.evaluate("mark_rule", l);
        let info = self.filter_rules.evaluate("info_rule", l);
        let strip = self.filter_rules.evaluate("strip_line_info_rule", l);
        lpx_err_report(l, &mark, &info, &strip)
    }
}

impl FileFilter for LPXControlErrFilter {
    closed spec fn wf(&self) -> bool {
        &&& self.filter_rules@.contains_key("mark_rule"@)
        &&& self.filter_rules@["mark_rule"@] == "^MARK"@
        &&& self.filter_rules@.contains_key("info_rule"@)
        &&& self.filter_rules@["info_rule"@] == "^Info"@
        &&& self.filter_rules@.contains_key("strip_line_info_rule"@)
        &&& self.filter_rules@["strip_line_info_rule"@] == strip_pattern(self.home@)
    }

    open spec fn processed(&self, input: Seq<char>, after: Self, out: Seq<Seq<char>>) -> bool {
        &&& after.home_spec() == self.home_spec()
        &&& out == split_on(input, '\n').filter_map(lpx_err_line_fn(self.home_spec()))
    }

    fn process_text(&mut self, input: &str) -> (res: Vec<String>) {
        let ls = split_str(input, '\n');
        let ghost p = split_on(input@, '\n');
        let ghost f = lpx_err_line_fn(self.home@);
        let mut res: Vec<String> = Vec::new();
        let mut i: usize = 0;
        while i < ls.len()
            invariant
                i <= ls@.len(),
                ls.deep_view() == p,
                self.wf(),
                f == lpx_err_line_fn(self.home@),
                res.deep_view() == p.take(i as int).filter_map(f),
            decreases ls.len() - i,
        {
            proof {
                lemma_filter_map_step(p, f, i as int);
            }
            assert(ls.deep_view()[i as int] == ls@[i as int]@);
            let ghost before = res.deep_view();
            match self.line(ls[i].as_str()) {
                Some(s) => {
                    res.push(s);
                    assert(res.deep_view() =~= before + seq![f(p[i as int])->0]);
                },
                None => {},
            }
            i = i + 1;
        }
        assert(p.take(p.len() as int) =~= p);
        res
    }
}


// ------------------------------------------------------------ yoshimi.out

/// `ls` joined with `sep` between neighbours, as `[String]::join`.
pub open spec fn join(ls: Seq<Seq<char>>, sep: Seq<char>) -> Seq<char>
    decreases ls.len(),
{
    if ls.len() == 0 {
        Seq::empty()
    } else if ls.len() == 1 {
        ls[0]
    } else {
        join(ls.drop_last(), sep) + sep + ls.last()
    }
}

fn join_strings(ls: &Vec<String>, sep: &str) -> (r: String)
    ensures
        r@ == join(ls.deep_view(), sep@),
{
    let mut r = String::new();
    let ghost d = ls.deep_view();
    let mut i: usize = 0;
    while i < ls.len()
        invariant
            i <= ls@.len(),
            d == ls.deep_view(),
            r@ == join(d.take(i as int), sep@),
        decreases ls.len() - i,
    {
        assert(d.take(i + 1).drop_last() =~= d.take(i as int));
        assert(d[i as int] == ls@[i as int]@);
        if i > 0 {
            r.append(sep);
        } else {
            assert(d.take(1) =~= seq![d[0]]);
        }
        r.append(ls[i].as_str());
        i = i + 1;
    }
    assert(d.take(d.len() as int) =~= d);
    r
}

/// Reads the clock with `time::OffsetDateTime::now_utc` and gives its Unix
/// timestamp in seconds.  Nothing is claimed of the value.
#[verifier::external_body]
fn unix_now() -> i64 {
    time::OffsetDateTime::now_utc().unix_timestamp()
}

/// What the Yoshimi stdout filter has learnt so far.
pub struct YoshimiState {
    pub sample_rate: Option<usize>,
    pub xruns: usize,
    pub xrun_time: Option<i64>,
    pub instrument: Seq<Seq<char>>,
}

/// The pattern that finds the instrument name in a line that reports an
/// instrument file under the rig's home directory `home` loaded.
pub open spec fn instrument_pattern(home: Seq<char>) -> Seq<char> {
    "Instrument file "@ + home + "/Instruments/xiz/(.+)\\.xiz loaded"@
}

/// The text of the sample rate group, `0` when the group is absent.
pub open spec fn sample_rate_text(c: Seq<Option<Seq<char>>>) -> Seq<char> {
    if 1 < c.len() && c[1] is Some {
        c[1]->0
    } else {
        "0"@
    }
}

/// A report of the Yoshimi stdout filter.
#[derive(PartialEq, Eq, Debug)]
pub enum YoshimiReport {
    /// A line of text.
    Line(String),
    /// `count` xruns, counted over the `seconds` since the last report.
    Xruns { count: usize, seconds: i128 },
}

/// The plain values of a report.
pub enum ReportView {
    Line(Seq<char>),
    Xruns(usize, int),
}

pub open spec fn report_view(r: YoshimiReport) -> ReportView {
    match r {
        YoshimiReport::Line(s) => ReportView::Line(s@),
        YoshimiReport::Xruns { count, seconds } => ReportView::Xruns(count, seconds as int),
    }
}

pub open spec fn option_report_view(r: Option<YoshimiReport>) -> Option<ReportView> {
    match r {
        Some(x) => Some(report_view(x)),
        None => None,
    }
}

pub open spec fn reports_view(rs: Seq<YoshimiReport>) -> Seq<ReportView> {
    rs.map_values(|r: YoshimiReport| report_view(r))
}

/// The line `l` of Yoshimi's stdout read at time `now`, on which the
/// sample rate, ready and instrument rules gave `rate`, `yay` and
/// `instrument`: the new state and what the line reports.  An xrun is
/// counted (the count stops at `usize::MAX`); a minute or more after the
/// last report the count, this xrun included, is reported with the
/// seconds since that report, and then the count restarts from zero and
/// the report time becomes `now`; a sample rate
/// is recorded, a change of it reported (a rate that does not read as a
/// `usize` is ignored); the ready line reports the sample rate and the
/// instruments; an instrument line records the instrument.
pub open spec fn yoshimi_out_applied(
    st: YoshimiState,
    l: Seq<char>,
    rate: Captures,
    yay: Captures,
    instrument: Captures,
    now: i64,
) -> (YoshimiState, Option<ReportView>) {
    if l == "xrun reported"@ {
        let xruns = if st.xruns < usize::MAX { (st.xruns + 1) as usize } else { st.xruns };
        let last = match st.xrun_time {
            Some(t) => t,
            None => now,
        };
        if now - last >= 60 {
            (
                YoshimiState { xruns: 0, xrun_time: Some(now), ..st },
                Some(ReportView::Xruns(xruns, now - last)),
            )
        } else {
            (YoshimiState { xruns, ..st }, None)
        }
    } else if let Some(c) = rate {
        match parse_usize_spec(sample_rate_text(c)) {
            Some(v) => (
                YoshimiState { sample_rate: Some(v as usize), ..st },
                match st.sample_rate {
                    Some(old) => Some(ReportView::Line("Overwriting sample rate.  Was: "@ + decimal(old as nat)
                        + " changed to: "@ + decimal(v))),
                    None => None,
                },
            ),
            None => (st, None),
        }
    } else if yay is Some {
        (
            st,
            Some(ReportView::Line("Yoshimi up: Sample rate: "@ + match st.sample_rate {
                Some(v) => decimal(v as nat),
                None => "<None>"@,
            } + " Instruments: "@ + join(st.instrument, ", "@))),
        )
    } else if let Some(c) = instrument {
        (YoshimiState { instrument: st.instrument.push(group(c, 1)), ..st }, None)
    } else {
        (st, None)
    }
}

/// One line of Yoshimi's stdout read at time `now`, for a rig whose home
/// directory is `home`: the new state and what the line reports.
pub open spec fn yoshimi_out_step(st: YoshimiState, home: Seq<char>, l: Seq<char>, now: i64) -> (
    YoshimiState,
    Option<ReportView>,
) {
    yoshimi_out_applied(
        st,
        l,
        regex_captures("Samplerate: (\\d+)"@, l),
        regex_captures("^Yay! We're up and running :-\\)$"@, l),
        regex_captures(instrument_pattern(home), l),
        now,
    )
}

/// The lines `ls` read in order at time `now`: the final state and the
/// reports.
pub open spec fn yoshimi_out_fold(st: YoshimiState, home: Seq<char>, ls: Seq<Seq<char>>, now: i64) -> (
    YoshimiState,
    Seq<ReportView>,
)
    decreases ls.len(),
{
    if ls.len() == 0 {
        (st, Seq::empty())
    } else {
        let (s1, out) = yoshimi_out_fold(st, home, ls.drop_last(), now);
        let (s2, o) = yoshimi_out_step(s1, home, ls.last(), now);
        (
            s2,
            match o {
                Some(x) => out.push(x),
                None => out,
            },
        )
    }
}

/// Follows Yoshimi's stdout: sample rate, instruments loaded, xruns.
pub struct YoshimiOutFilter {
    pub sample_rate: Option<usize>,
    pub xruns: usize,
    pub xrun_time: Option<i64>,
    pub instrument: Vec<String>,
    /// The rig's home directory, under which instrument files are found.
    pub home: String,
    /// The rules `new` puts in place (see `wf`).
    pub filter_rules: FilterRules,
}

impl YoshimiOutFilter {
    /// What the filter has learnt: its public fields.
    pub open spec fn state(&self) -> YoshimiState {
        YoshimiState {
            sample_rate: self.sample_rate,
            xruns: self.xruns,
            xrun_time: self.xrun_time,
            instrument: self.instrument.deep_view(),
        }
    }

    pub closed spec fn home_spec(&self) -> Seq<char> {
        self.home@
    }

    pub closed spec fn rule_names(&self) -> Set<Seq<char>> {
        self.filter_rules@.dom()
    }

    /// Its three rules are in place.
    pub closed spec fn wf(&self) -> bool {
        &&& self.filter_rules@.contains_key("sample_rate_rule"@)
        &&& self.filter_rules@["sample_rate_rule"@] == "Samplerate: (\\d+)"@
        &&& self.filter_rules@.contains_key("yay_running_rul_name"@)
        &&& self.filter_rules@["yay_running_rul_name"@] == "^Yay! We're up and running :-\\)$"@
        &&& self.filter_rules@.contains_key("instrument_rule_name"@)
        &&& self.filter_rules@["instrument_rule_name"@] == instrument_pattern(self.home@)
    }

    /// The filter for a rig whose home directory is `home`, knowing
    /// nothing yet; `None` when a rule's pattern does not compile.
    pub fn new(home: &str) -> (r: Option<Self>)
        ensures
            r is Some <==> regex_compiles("Samplerate: (\\d+)"@) && regex_compiles(
                "^Yay! We're up and running :-\\)$"@,
            ) && regex_compiles(instrument_pattern(home@)),
            r matches Some(f) ==> {
                &&& f.wf()
                &&& f.home_spec() == home@
                &&& f.state() == YoshimiState {
                    sample_rate: None,
                    xruns: 0,
                    xrun_time: None,
                    instrument: Seq::empty(),
                }
            },
    {
        let mut filter_rules = FilterRules::new();
        if !filter_rules.add_rule("sample_rate_rule", "Samplerate: (\\d+)") {
            return None;
        }
        if !filter_rules.add_rule("yay_running_rul_name", "^Yay! We're up and running :-\\)$") {
            return None;
        }
        let mut instr: String = "Instrument file ".to_owned();
        instr.append(home);
        instr.append("/Instruments/xiz/(.+)\\.xiz loaded");
        if !filter_rules.add_rule("instrument_rule_name", instr.as_str()) {
            return None;
        }
        proof {
            reveal_strlit("sample_rate_rule");
            reveal_strlit("yay_running_rul_name");
            reveal_strlit("instrument_rule_name");
            assert("sample_rate_rule"@.len() != "yay_running_rul_name"@.len());
            assert("sample_rate_rule"@.len() != "instrument_rule_name"@.len());
            assert("yay_running_rul_name"@[0] != "instrument_rule_name"@[0]);
        }
        let r = YoshimiOutFilter {
            sample_rate: None,
            xruns: 0,
            xrun_time: None,
            instrument: Vec::new(),
            home: home.to_owned(),
            filter_rules,
        };
        assert(r.wf());
        assert(r.instrument.deep_view() =~= Seq::<Seq<char>>::empty());
        Some(r)
    }

    /// Whether the rule `name` is in place.
    pub fn has_rule(&self, name: &str) -> (r: bool)
        ensures
            r == self.rule_names().contains(name@),
    {
        self.filter_rules.has_rule(name)
    }

    /// Take in the line `l` read at time `now` (Unix seconds), on which the
    /// sample rate, ready and instrument rules gave `rate`, `yay` and
    /// `instrument`: what it reports.
    pub fn apply(
        &mut self,
        l: &str,
        now: i64,
        rate: &Option<Vec<Option<String>>>,
        yay: &Option<Vec<Option<String>>>,
        instrument: &Option<Vec<Option<String>>>,
    ) -> (r: Option<YoshimiReport>)
        ensures
            old(self).wf() ==> final(self).wf(),
            final(self).home_spec() == old(self).home_spec(),
            final(self).rule_names() == old(self).rule_names(),
            (final(self).state(), option_report_view(r)) == yoshimi_out_applied(
                old(self).state(),
                l@,
                rate.deep_view(),
                yay.deep_view(),
                instrument.deep_view(),
                now,
            ),
    {
        if crate::text::str_eq(l, "xrun reported") {
            if self.xruns < usize::MAX {
                self.xruns = self.xruns + 1;
            }
            let last = match self.xrun_time {
                Some(t) => t,
                None => now,
            };
            let seconds: i128 = (now as i128) - (last as i128);
            if seconds >= 60 {
                let count = self.xruns;
                self.xruns = 0;
                self.xrun_time = Some(now);
                return Some(YoshimiReport::Xruns { count, seconds });
            }
            return None;
        }
        if let Some(c) = rate {
            let text = if 1 < c.len() {
                match &c[1] {
                    Some(t) => t.clone(),
                    None => "0".to_owned(),
                }
            } else {
                "0".to_owned()
            };
            assert(c.deep_view()[1] == c@[1].deep_view() || c@.len() <= 1);
            assert(text@ == sample_rate_text(c.deep_view()));
            match parse_usize(text.as_str()) {
                Some(v) => {
                    let out = match self.sample_rate {
                        Some(old) => {
                            let mut s: String = "Overwriting sample rate.  Was: ".to_owned();
                            s.append(decimal_string(old as u64).as_str());
                            s.append(" changed to: ");
                            s.append(decimal_string(v as u64).as_str());
                            Some(YoshimiReport::Line(s))
                        },
                        None => None,
                    };
                    self.sample_rate = Some(v);
                    return out;
                },
                None => {
                    return None;
                },
            }
        }
        if yay.is_some() {
            let mut s: String = "Yoshimi up: Sample rate: ".to_owned();
            match self.sample_rate {
                Some(v) => s.append(decimal_string(v as u64).as_str()),
                None => s.append("<None>"),
            }
            s.append(" Instruments: ");
            s.append(join_strings(&self.instrument, ", ").as_str());
            return Some(YoshimiReport::Line(s));
        }
        if let Some(c) = instrument {
            let g = group_text(c, 1);
            let ghost before = self.instrument.deep_view();
            self.instrument.push(g);
            assert(self.instrument.deep_view() =~= before.push(group(c.deep_view(), 1)));
            return None;
        }
        None
    }

    fn step(&mut self, l: &str, now: i64) -> (r: Option<YoshimiReport>)
        requires
            old(self).wf(),
        ensures
            final(self).wf(),
            final(self).home_spec() == old(self).home_spec(),
            final(self).rule_names() == old(self).rule_names(),
            (final(self).state(), option_report_view(r)) == yoshimi_out_step(
                old(self).state(),
                old(self).home_spec(),
                l@,
                now,
            ),
    {
        let rate = self.filter_rules.evaluate("sample_rate_rule", l);
        let yay = self.filter_rules.evaluate("yay_running_rul_name", l);
        let instrument = self.filter_rules.evaluate("instrument_rule_name", l);
        self.apply(l, now, &rate, &yay, &instrument)
    }

    /// Read `input` at time `now` (Unix seconds): the reports, in order.
    pub fn process_text_at(&mut self, input: &str, now: i64) -> (res: Vec<YoshimiReport>)
        requires
            old(self).wf(),
        ensures
            final(self).wf(),
            final(self).home_spec() == old(self).home_spec(),
            final(self).rule_names() == old(self).rule_names(),
            (final(self).state(), reports_view(res@)) == yoshimi_out_fold(
                old(self).state(),
                old(self).home_spec(),
                split_on(input@, '\n'),
                now,
            ),
    {
        let ls = split_str(input, '\n');
        let ghost p = split_on(input@, '\n');
        let ghost st0 = self.state();
        let ghost home = self.home_spec();
        let ghost names = self.rule_names();
        let mut res: Vec<YoshimiReport> = Vec::new();
        let mut i: usize = 0;
        while i < ls.len()
            invariant
                i <= ls@.len(),
                ls.deep_view() == p,
                self.wf(),
                self.home_spec() == home,
                self.rule_names() == names,
                (self.state(), reports_view(res@)) == yoshimi_out_fold(st0, home, p.take(i as int), now),
            decreases ls.len() - i,
        {
            assert(p.take(i + 1).drop_last() =~= p.take(i as int));
            assert(ls.deep_view()[i as int] == ls@[i as int]@);
            let ghost before = reports_view(res@);
            match self.step(ls[i].as_str(), now) {
                Some(s) => {
                    let ghost v = report_view(s);
                    res.push(s);
                    assert(reports_view(res@) =~= before.push(v));
                },
                None => {},
            }
            i = i + 1;
        }
        assert(p.take(p.len() as int) =~= p);
        res
    }

    /// Read `input` at the present moment of the clock: the reports, in
    /// order, as `process_text_at` gives them at that moment.
    pub fn process_text(&mut self, input: &str) -> (res: Vec<YoshimiReport>)
        requires
            old(self).wf(),
        ensures
            final(self).wf(),
            final(self).home_spec() == old(self).home_spec(),
            final(self).rule_names() == old(self).rule_names(),
            exists|now: i64|
                #[trigger] yoshimi_out_fold(
                    old(self).state(),
                    old(self).home_spec(),
                    split_on(input@, '\n'),
                    now,
                ) == (final(self).state(), reports_view(res@)),
    {
        let now = unix_now();
        self.process_text_at(input, now)
    }
}

} // verus!
