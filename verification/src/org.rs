//! An organizational chart built from personnel commands.
//!
//! Commands have the shapes `Add <person> to <department>`,
//! `Remove <person> from <department>`, and
//! `Move <person> from <department> to <department>`. A command that has none
//! of these shapes, or that cannot be executed (the person is not in the
//! department it names), is ignored. An empty department disappears from the
//! chart. Departments are kept in the order they were first created, members
//! in the order they first joined.

use vstd::prelude::*;
use vstd::string::{StrSliceExecFns, StringExecFns};

verus! {

/// The chart's mathematical view: department names with their member lists,
/// in creation order.
pub type ChartV = Seq<(Seq<char>, Seq<Seq<char>>)>;

/// The views of a list of names.
pub open spec fn names_view(s: Seq<String>) -> Seq<Seq<char>> {
    s.map_values(|x: String| x@)
}

/// The index of the first department named `d` at or after `i`, or the length
/// when there is none.
pub open spec fn chart_find(c: ChartV, d: Seq<char>, i: int) -> int
    decreases c.len() - i when 0 <= i <= c.len()
{
    if i < c.len() {
        if c[i].0 == d {
            i
        } else {
            chart_find(c, d, i + 1)
        }
    } else {
        i
    }
}

/// The index of the first occurrence of `p` at or after `i`, or the length
/// when there is none.
pub open spec fn member_find(m: Seq<Seq<char>>, p: Seq<char>, i: int) -> int
    decreases m.len() - i when 0 <= i <= m.len()
{
    if i < m.len() {
        if m[i] == p {
            i
        } else {
            member_find(m, p, i + 1)
        }
    } else {
        i
    }
}

proof fn lemma_chart_find(c: ChartV, d: Seq<char>, i: int)
    requires
        0 <= i <= c.len(),
    ensures
        i <= chart_find(c, d, i) <= c.len(),
        chart_find(c, d, i) < c.len() ==> c[chart_find(c, d, i)].0 == d,
    decreases c.len() - i,
{
    if i < c.len() && c[i].0 != d {
        lemma_chart_find(c, d, i + 1);
    }
}

proof fn lemma_member_find(m: Seq<Seq<char>>, p: Seq<char>, i: int)
    requires
        0 <= i <= m.len(),
    ensures
        i <= member_find(m, p, i) <= m.len(),
        member_find(m, p, i) < m.len() ==> m[member_find(m, p, i)] == p,
    decreases m.len() - i,
{
    if i < m.len() && m[i] != p {
        lemma_member_find(m, p, i + 1);
    }
}

/// Adds `p` to department `d`: appended to the department's members if not
/// already one, the department being created at the end if it is new.
pub open spec fn chart_add(c: ChartV, d: Seq<char>, p: Seq<char>) -> ChartV {
    let k = chart_find(c, d, 0);
    if k == c.len() {
        c.push((d, seq![p]))
    } else if member_find(c[k].1, p, 0) < c[k].1.len() {
        c
    } else {
        c.update(k, (d, c[k].1.push(p)))
    }
}

/// Removes `p` from department `d` if it is a member; a department left
/// empty disappears.
pub open spec fn chart_remove(c: ChartV, d: Seq<char>, p: Seq<char>) -> ChartV {
    let k = chart_find(c, d, 0);
    if k == c.len() {
        c
    } else {
        let j = member_find(c[k].1, p, 0);
        if j == c[k].1.len() {
            c
        } else if c[k].1.len() == 1 {
            c.remove(k)
        } else {
            c.update(k, (d, c[k].1.remove(j)))
        }
    }
}

/// Whether `p` is a member of department `d`.
pub open spec fn chart_has(c: ChartV, d: Seq<char>, p: Seq<char>) -> bool {
    let k = chart_find(c, d, 0);
    k < c.len() && member_find(c[k].1, p, 0) < c[k].1.len()
}

/// Moves `p` from department `d1` to department `d2`, if it is a member of
/// `d1`; otherwise the command is ignored.
pub open spec fn chart_move(c: ChartV, d1: Seq<char>, p: Seq<char>, d2: Seq<char>) -> ChartV {
    if chart_has(c, d1, p) {
        chart_add(chart_remove(c, d1, p), d2, p)
    } else {
        c
    }
}

/// The index just past the word that starts at `i`: the first space at or
/// after `i`, or the end.
pub open spec fn word_end(s: Seq<char>, i: int) -> int
    decreases s.len() - i when 0 <= i <= s.len()
{
    if i < s.len() && s[i] != ' ' {
        word_end(s, i + 1)
    } else {
        i
    }
}

proof fn lemma_word_end_bounds(s: Seq<char>, i: int)
    requires
        0 <= i <= s.len(),
    ensures
        i <= word_end(s, i) <= s.len(),
    decreases s.len() - i,
{
    if i < s.len() && s[i] != ' ' {
        lemma_word_end_bounds(s, i + 1);
    }
}

/// The words of `s` from `i` on, split at single spaces.
pub open spec fn words_from(s: Seq<char>, i: int) -> Seq<Seq<char>>
    decreases s.len() - i when 0 <= i <= s.len() via words_from_dec
{
    let j = word_end(s, i);
    if j == s.len() {
        seq![s.subrange(i, j)]
    } else {
        seq![s.subrange(i, j)] + words_from(s, j + 1)
    }
}

#[via_fn]
proof fn words_from_dec(s: Seq<char>, i: int) {
    lemma_word_end_bounds(s, i);
}

/// The words of a whole command line.
pub open spec fn line_words(s: Seq<char>) -> Seq<Seq<char>> {
    words_from(s, 0)
}

/// Executes one command line on the chart; lines of no known shape are
/// ignored.
pub open spec fn chart_apply(c: ChartV, line: Seq<char>) -> ChartV {
    let w = line_words(line);
    if w.len() == 4 && w[0] == ("Add")@ && w[2] == ("to")@ {
        chart_add(c, w[3], w[1])
    } else if w.len() == 4 && w[0] == ("Remove")@ && w[2] == ("from")@ {
        chart_remove(c, w[3], w[1])
    } else if w.len() == 6 && w[0] == ("Move")@ && w[2] == ("from")@ && w[4] == ("to")@ {
        chart_move(c, w[3], w[1], w[5])
    } else {
        c
    }
}

/// The chart that executing all the command lines, in order, on an empty
/// chart leaves behind.
pub open spec fn org_spec(cmds: Seq<Seq<char>>) -> ChartV
    decreases cmds.len(),
{
    if cmds.len() == 0 {
        Seq::empty()
    } else {
        chart_apply(org_spec(cmds.drop_last()), cmds.last())
    }
}

/// An organizational chart: departments with their members.
pub struct OrgChart {
    entries: Vec<(String, Vec<String>)>,
}

impl View for OrgChart {
    type V = ChartV;

    closed spec fn view(&self) -> ChartV {
        self.entries@.map_values(|e: (String, Vec<String>)| (e.0@, names_view(e.1@)))
    }
}

impl OrgChart {
    /// The number of departments.
    pub fn len(&self) -> (n: usize)
        ensures
            n == self@.len(),
    {
        self.entries.len()
    }

    /// The members of the named department, or `None` when the chart has no
    /// such department.
    pub fn get(&self, dept: &String) -> (r: Option<&Vec<String>>)
        ensures
            match r {
                Option::Some(m) => chart_find(self@, dept@, 0) < self@.len() && names_view(m@)
                    == self@[chart_find(self@, dept@, 0)].1,
                Option::None => chart_find(self@, dept@, 0) == self@.len(),
            },
    {
        let k = self.find_dept(dept);
        if k < self.entries.len() {
            Option::Some(&self.entries[k].1)
        } else {
            Option::None
        }
    }

    /// The name and members of the department at `k`, in creation order.
    pub fn entry(&self, k: usize) -> (r: (&String, &Vec<String>))
        requires
            k < self@.len(),
        ensures
            r.0@ == self@[k as int].0,
            names_view(r.1@) == self@[k as int].1,
    {
        (&self.entries[k].0, &self.entries[k].1)
    }

    /// The index of the first department named `d`, or the length.
    fn find_dept(&self, d: &String) -> (k: usize)
        ensures
            k as int == chart_find(self@, d@, 0),
            k <= self@.len(),
    {
        let n = self.entries.len();
        let mut k: usize = 0;
        while k < n
            invariant
                n == self@.len(),
                k <= n,
                chart_find(self@, d@, 0) == chart_find(self@, d@, k as int),
            decreases n - k,
        {
            if self.entries[k].0 == *d {
                return k;
            }
            k = k + 1;
        }
        k
    }
}

/// The index of the first occurrence of `p` among the names, or the length.
fn find_member(m: &Vec<String>, p: &String) -> (j: usize)
    ensures
        j as int == member_find(names_view(m@), p@, 0),
        j <= m@.len(),
{
    let n = m.len();
    let mut j: usize = 0;
    while j < n
        invariant
            n == m@.len(),
            j <= n,
            member_find(names_view(m@), p@, 0) == member_find(names_view(m@), p@, j as int),
        decreases n - j,
    {
        if m[j] == *p {
            return j;
        }
        j = j + 1;
    }
    j
}

impl OrgChart {
    fn add_member(&mut self, d: String, p: String)
        ensures
            final(self)@ == chart_add(old(self)@, d@, p@),
    {
        let ghost pre = self@;
        let k = self.find_dept(&d);
        if k == self.entries.len() {
            let mut members: Vec<String> = Vec::new();
            members.push(p);
            self.entries.push((d, members));
            proof {
                assert(self@ =~~= pre.push((d@, seq![p@])));
            }
        } else {
            let j = find_member(&self.entries[k].1, &p);
            if j == self.entries[k].1.len() {
                proof {
                    lemma_chart_find(pre, d@, 0);
                }
                let (name, mut members) = self.entries.remove(k);
                members.push(p);
                self.entries.insert(k, (name, members));
                proof {
                    assert(names_view(members@) =~= pre[k as int].1.push(p@));
                    assert(self@ =~~= pre.update(k as int, (d@, pre[k as int].1.push(p@))));
                }
            }
        }
    }

    fn remove_member(&mut self, d: String, p: String)
        ensures
            final(self)@ == chart_remove(old(self)@, d@, p@),
    {
        let ghost pre = self@;
        let k = self.find_dept(&d);
        if k == self.entries.len() {
            return;
        }
        let j = find_member(&self.entries[k].1, &p);
        if j == self.entries[k].1.len() {
            return;
        }
        proof {
            lemma_chart_find(pre, d@, 0);
        }
        let (name, mut members) = self.entries.remove(k);
        if members.len() == 1 {
            proof {
                assert(self@ =~~= pre.remove(k as int));
            }
        } else {
            let _removed = members.remove(j);
            self.entries.insert(k, (name, members));
            proof {
                assert(names_view(members@) =~= pre[k as int].1.remove(j as int));
                assert(self@ =~~= pre.update(k as int, (d@, pre[k as int].1.remove(j as int))));
            }
        }
    }

    fn move_member(&mut self, d1: String, p: String, d2: String)
        ensures
            final(self)@ == chart_move(old(self)@, d1@, p@, d2@),
    {
        let k = self.find_dept(&d1);
        if k == self.entries.len() {
            return;
        }
        let j = find_member(&self.entries[k].1, &p);
        if j == self.entries[k].1.len() {
            return;
        }
        let p2 = p.clone();
        self.remove_member(d1, p);
        self.add_member(d2, p2);
    }
}

/// The words of the line from character `i` on.
fn split_from(s: &str, n: usize, i: usize) -> (r: Vec<String>)
    requires
        n == s@.len(),
        i <= n,
    ensures
        names_view(r@) == words_from(s@, i as int),
    decreases n - i,
{
    let mut j: usize = i;
    while j < n
        invariant
            n == s@.len(),
            i <= j <= n,
            word_end(s@, i as int) == word_end(s@, j as int),
        ensures
            i <= j <= n,
            j as int == word_end(s@, i as int),
        decreases n - j,
    {
        if s.get_char(j) == ' ' {
            break;
        }
        j = j + 1;
    }
    let word = s.substring_char(i, j).to_owned();
    if j == n {
        let mut r: Vec<String> = Vec::new();
        r.push(word);
        proof {
            assert(names_view(r@) =~= seq![s@.subrange(i as int, j as int)]);
        }
        r
    } else {
        let mut r = split_from(s, n, j + 1);
        r.insert(0, word);
        proof {
            assert(names_view(r@) =~= seq![s@.subrange(i as int, j as int)] + words_from(
                s@,
                j as int + 1,
            ));
        }
        r
    }
}

/// Converts personnel commands to the organization chart that executing them
/// on an empty chart produces.
pub fn organize(commands: Vec<String>) -> (r: OrgChart)
    ensures
        r@ == org_spec(commands@.map_values(|c: String| c@)),
{
    let ghost cmds = commands@.map_values(|c: String| c@);
    let mut chart = OrgChart { entries: Vec::new() };
    proof {
        assert(chart@ =~= Seq::empty());
    }
    let mut i: usize = 0;
    while i < commands.len()
        invariant
            cmds == commands@.map_values(|c: String| c@),
            i <= commands@.len(),
            chart@ == org_spec(cmds.take(i as int)),
        decreases commands@.len() - i,
    {
        let line = &commands[i];
        let n = line.as_str().unicode_len();
        let words = split_from(line.as_str(), n, 0);
        proof {
            assert(cmds.take(i as int + 1).drop_last() =~= cmds.take(i as int));
            assert(cmds.take(i as int + 1).last() == cmds[i as int]);
        }
        if words.len() == 4 && words[0] == String::from_str("Add") && words[2] == String::from_str(
            "to",
        ) {
            let d = words[3].clone();
            let p = words[1].clone();
            chart.add_member(d, p);
        } else if words.len() == 4 && words[0] == String::from_str("Remove") && words[2]
            == String::from_str("from") {
            let d = words[3].clone();
            let p = words[1].clone();
            chart.remove_member(d, p);
        } else if words.len() == 6 && words[0] == String::from_str("Move") && words[2]
            == String::from_str("from") && words[4] == String::from_str("to") {
            let d1 = words[3].clone();
            let p = words[1].clone();
            let d2 = words[5].clone();
            chart.move_member(d1, p, d2);
        }
        i = i + 1;
    }
    proof {
        assert(cmds.take(cmds.len() as int) =~= cmds);
    }
    chart
}

} // verus!
