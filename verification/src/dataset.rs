//! Normalized procurement dataset used by the detection pipeline: contracts
//! and employees keyed by id, with the DoD-nexus contract filter.

use vstd::prelude::*;

use crate::registry::{first_where, lemma_first_where, lemma_first_where_unique, strs};
use crate::text::{chars_eq, eq_ignore_ascii_case, eq_ignore_case, str_chars};

verus! {

/// Minimum confidence (0-100) a finding needs to be reported, unless
/// configured otherwise.
pub fn default_min_confidence() -> (r: u8)
    ensures
        r == 50,
{
    50
}

/// A contract: id, CAGE code, agency, and the labor categories it covers.
#[derive(Debug)]
pub struct Contract {
    pub id: String,
    pub cage_code: Option<String>,
    pub agency: Option<String>,
    pub labor_cats: Vec<String>,
}

/// An employee: id, qualifications, and whether they were verified.
#[derive(Debug)]
pub struct Employee {
    pub id: String,
    pub quals: Vec<String>,
    pub verified: bool,
}

impl Default for Employee {
    fn default() -> (r: Employee)
        ensures
            r.id@ == Seq::<char>::empty(),
            r.quals@.len() == 0,
            !r.verified,
    {
        Employee { id: String::new(), quals: Vec::new(), verified: false }
    }
}

pub open spec fn opt_eq_ignore_case(field: Option<String>, want: Seq<char>) -> bool {
    field matches Some(x) && eq_ignore_case(x@, want)
}

/// A contract passes the agency and CAGE filters that are given
/// (ASCII case-insensitive; a contract without the field does not pass).
pub open spec fn passes(c: Contract, agency: Option<Seq<char>>, cage: Option<Seq<char>>) -> bool {
    &&& (agency matches Some(a) ==> opt_eq_ignore_case(c.agency, a))
    &&& (cage matches Some(g) ==> opt_eq_ignore_case(c.cage_code, g))
}

/// Ids of the contracts that pass the filters, in dataset order.
pub open spec fn passing_ids(cs: Seq<Contract>, agency: Option<Seq<char>>, cage: Option<Seq<char>>) -> Seq<Seq<char>>
    decreases cs.len(),
{
    if cs.len() == 0 {
        Seq::empty()
    } else {
        let rest = passing_ids(cs.drop_last(), agency, cage);
        if passes(cs.last(), agency, cage) {
            rest.push(cs.last().id@)
        } else {
            rest
        }
    }
}

pub open spec fn contract_ids(cs: Seq<Contract>) -> Seq<Seq<char>> {
    cs.map_values(|c: Contract| c.id@)
}

pub open spec fn employee_ids_of(es: Seq<Employee>) -> Seq<Seq<char>> {
    es.map_values(|e: Employee| e.id@)
}

pub open spec fn distinct(ids: Seq<Seq<char>>) -> bool {
    forall|i: int, j: int| 0 <= i < j < ids.len() ==> #[trigger] ids[i] != #[trigger] ids[j]
}

pub open spec fn contract_has_id(id: Seq<char>) -> spec_fn(Contract) -> bool {
    |c: Contract| c.id@ == id
}

pub open spec fn employee_has_id(id: Seq<char>) -> spec_fn(Employee) -> bool {
    |e: Employee| e.id@ == id
}

pub open spec fn opt_str(o: Option<&str>) -> Option<Seq<char>> {
    match o {
        Some(s) => Some(s@),
        None => None,
    }
}

/// Contracts and employees, each keyed by id (no id occurs twice).
pub struct Dataset {
    contracts: Vec<Contract>,
    employees: Vec<Employee>,
}

fn eq_opt_ignore_case(field: &Option<String>, want: &Vec<char>) -> (r: bool)
    ensures
        r == opt_eq_ignore_case(*field, want@),
{
    match field {
        Some(x) => eq_ignore_ascii_case(&str_chars(x.as_str()), want),
        None => false,
    }
}

impl Dataset {
    pub closed spec fn contract_seq(&self) -> Seq<Contract> {
        self.contracts@
    }

    pub closed spec fn employee_seq(&self) -> Seq<Employee> {
        self.employees@
    }

    pub closed spec fn wf(&self) -> bool {
        distinct(contract_ids(self.contracts@)) && distinct(employee_ids_of(self.employees@))
    }

    /// An empty dataset.
    pub fn new() -> (r: Dataset)
        ensures
            r.wf(),
            r.contract_seq().len() == 0,
            r.employee_seq().len() == 0,
    {
        Dataset { contracts: Vec::new(), employees: Vec::new() }
    }

    /// Adds a contract under its id, replacing one with the same id.
    pub fn insert_contract(&mut self, c: Contract)
        requires
            old(self).wf(),
        ensures
            final(self).wf(),
            final(self).employee_seq() == old(self).employee_seq(),
            final(self).contract_seq() == with_contract(old(self).contract_seq(), c),
    {
        let ghost v = self.contracts@;
        let ghost p = contract_has_id(c.id@);
        proof {
            lemma_first_where(v, p);
        }
        let mut i: usize = 0;
        while i < self.contracts.len()
            invariant
                i <= self.contracts@.len(),
                v == self.contracts@,
                *self == *old(self),
                old(self).wf(),
                p == contract_has_id(c.id@),
                forall|k: int| 0 <= k < i ==> !p(#[trigger] v[k]),
            decreases self.contracts@.len() - i,
        {
            if self.contracts[i].id == c.id {
                proof {
                    lemma_first_where_unique(v, p, i as int);
                }
                let ghost cv = c;
                self.contracts.set(i, c);
                assert(contract_ids(self.contracts@) =~= contract_ids(v));
                return;
            }
            i = i + 1;
        }
        let ghost cv = c;
        assert(forall|k: int| 0 <= k < v.len() ==> v[k].id@ != cv.id@);
        self.contracts.push(c);
        assert(contract_ids(self.contracts@) =~= contract_ids(v).push(cv.id@));
    }

    /// Adds an employee under its id, replacing one with the same id.
    pub fn insert_employee(&mut self, e: Employee)
        requires
            old(self).wf(),
        ensures
            final(self).wf(),
            final(self).contract_seq() == old(self).contract_seq(),
            match first_where(old(self).employee_seq(), employee_has_id(e.id@)) {
                Some(i) => final(self).employee_seq() == old(self).employee_seq().update(i, e),
                None => final(self).employee_seq() == old(self).employee_seq().push(e),
            },
    {
        let ghost v = self.employees@;
        let ghost p = employee_has_id(e.id@);
        proof {
            lemma_first_where(v, p);
        }
        let mut i: usize = 0;
        while i < self.employees.len()
            invariant
                i <= self.employees@.len(),
                v == self.employees@,
                *self == *old(self),
                old(self).wf(),
                p == employee_has_id(e.id@),
                forall|k: int| 0 <= k < i ==> !p(#[trigger] v[k]),
            decreases self.employees@.len() - i,
        {
            if self.employees[i].id == e.id {
                proof {
                    lemma_first_where_unique(v, p, i as int);
                }
                self.employees.set(i, e);
                assert(employee_ids_of(self.employees@) =~= employee_ids_of(v));
                return;
            }
            i = i + 1;
        }
        let ghost ev = e;
        assert(forall|k: int| 0 <= k < v.len() ==> v[k].id@ != ev.id@);
        self.employees.push(e);
        assert(employee_ids_of(self.employees@) =~= employee_ids_of(v).push(ev.id@));
    }

    /// The contract with this id.
    pub fn contract_by_id(&self, id: &str) -> (r: Option<&Contract>)
        ensures
            match r {
                Some(c) => exists|i: int| 0 <= i < self.contract_seq().len() && self.contract_seq()[i] == *c && c.id@ == id@,
                None => forall|i: int| 0 <= i < self.contract_seq().len() ==> (#[trigger] self.contract_seq()[i]).id@ != id@,
            },
    {
        let want = str_chars(id);
        let mut i: usize = 0;
        while i < self.contracts.len()
            invariant
                i <= self.contracts@.len(),
                want@ == id@,
                forall|k: int| 0 <= k < i ==> (#[trigger] self.contracts@[k]).id@ != id@,
            decreases self.contracts@.len() - i,
        {
            if chars_eq(&str_chars(self.contracts[i].id.as_str()), &want) {
                assert(self.contract_seq()[i as int] == self.contracts@[i as int]);
                return Some(&self.contracts[i]);
            }
            i = i + 1;
        }
        None
    }

    /// The employee with this id.
    pub fn employee_by_id(&self, id: &str) -> (r: Option<&Employee>)
        ensures
            match r {
                Some(e) => exists|i: int| 0 <= i < self.employee_seq().len() && self.employee_seq()[i] == *e && e.id@ == id@,
                None => forall|i: int| 0 <= i < self.employee_seq().len() ==> (#[trigger] self.employee_seq()[i]).id@ != id@,
            },
    {
        let want = str_chars(id);
        let mut i: usize = 0;
        while i < self.employees.len()
            invariant
                i <= self.employees@.len(),
                want@ == id@,
                forall|k: int| 0 <= k < i ==> (#[trigger] self.employees@[k]).id@ != id@,
            decreases self.employees@.len() - i,
        {
            if chars_eq(&str_chars(self.employees[i].id.as_str()), &want) {
                assert(self.employee_seq()[i as int] == self.employees@[i as int]);
                return Some(&self.employees[i]);
            }
            i = i + 1;
        }
        None
    }

    /// All employee ids (each once).
    pub fn employee_ids(&self) -> (r: Vec<String>)
        ensures
            strs(r@) == employee_ids_of(self.employee_seq()),
    {
        let mut out: Vec<String> = Vec::new();
        let mut i: usize = 0;
        while i < self.employees.len()
            invariant
                i <= self.employees@.len(),
                strs(out@) == employee_ids_of(self.employees@.take(i as int)),
            decreases self.employees@.len() - i,
        {
            let ghost before = out@;
            let s = self.employees[i].id.clone();
            out.push(s);
            assert(strs(out@) =~= strs(before).push(self.employees@[i as int].id@));
            assert(employee_ids_of(self.employees@.take(i + 1)) =~= employee_ids_of(self.employees@.take(i as int)).push(self.employees@[i as int].id@));
            i = i + 1;
        }
        assert(self.employees@.take(self.employees@.len() as int) =~= self.employees@);
        out
    }

    /// DoD-nexus filter: ids of the contracts matching the agency and/or
    /// CAGE code given (all contracts when neither is given).
    pub fn nexus_contract_ids(&self, filter_agency: Option<&str>, filter_cage_code: Option<&str>) -> (r: Vec<String>)
        ensures
            strs(r@) == passing_ids(self.contract_seq(), opt_str(filter_agency), opt_str(filter_cage_code)),
    {
        let a: Vec<char> = match filter_agency {
            Some(x) => str_chars(x),
            None => Vec::new(),
        };
        let g: Vec<char> = match filter_cage_code {
            Some(x) => str_chars(x),
            None => Vec::new(),
        };
        let ghost av = opt_str(filter_agency);
        let ghost gv = opt_str(filter_cage_code);
        let mut out: Vec<String> = Vec::new();
        let mut i: usize = 0;
        while i < self.contracts.len()
            invariant
                i <= self.contracts@.len(),
                av == opt_str(filter_agency),
                gv == opt_str(filter_cage_code),
                filter_agency matches Some(x) ==> a@ == x@,
                filter_cage_code matches Some(x) ==> g@ == x@,
                strs(out@) == passing_ids(self.contracts@.take(i as int), av, gv),
            decreases self.contracts@.len() - i,
        {
            let c = &self.contracts[i];
            assert(self.contracts@.take(i + 1).drop_last() =~= self.contracts@.take(i as int));
            assert(self.contracts@.take(i + 1).last() == *c);
            let agency_ok = match filter_agency {
                Some(_) => eq_opt_ignore_case(&c.agency, &a),
                None => true,
            };
            let cage_ok = match filter_cage_code {
                Some(_) => eq_opt_ignore_case(&c.cage_code, &g),
                None => true,
            };
            if agency_ok && cage_ok {
                let ghost before = out@;
                out.push(c.id.clone());
                assert(strs(out@) =~= strs(before).push(c.id@));
            }
            i = i + 1;
        }
        assert(self.contracts@.take(self.contracts@.len() as int) =~= self.contracts@);
        out
    }
}

// ---------------------------------------------------------------------------
// Laws
// ---------------------------------------------------------------------------

/// The contracts after adding `c`: it replaces the one with its id, or is
/// appended.
pub open spec fn with_contract(cs: Seq<Contract>, c: Contract) -> Seq<Contract> {
    match first_where(cs, contract_has_id(c.id@)) {
        Some(i) => cs.update(i, c),
        None => cs.push(c),
    }
}

/// After a contract is added, it is the one contract with its id.
pub proof fn law_inserted_contract_is_found(cs: Seq<Contract>, c: Contract)
    requires
        distinct(contract_ids(cs)),
    ensures
        exists|i: int| 0 <= i < with_contract(cs, c).len() && with_contract(cs, c)[i] == c,
        forall|i: int|
            0 <= i < with_contract(cs, c).len() && (#[trigger] with_contract(cs, c)[i]).id@ == c.id@
                ==> with_contract(cs, c)[i] == c,
{
    lemma_first_where(cs, contract_has_id(c.id@));
    match first_where(cs, contract_has_id(c.id@)) {
        Some(i) => {
            let n = cs.update(i, c);
            assert(n[i] == c);
            assert(contract_has_id(c.id@)(cs[i]));
            assert(cs[i].id@ == c.id@);
            assert(exists|x: int| 0 <= x < n.len() && n[x] == c);
            assert forall|j: int| 0 <= j < n.len() && (#[trigger] n[j]).id@ == c.id@ implies n[j] == c by {
                if j != i {
                    assert(contract_ids(cs)[j] == cs[j].id@);
                    assert(contract_ids(cs)[i] == cs[i].id@);
                    if j < i {
                        assert(contract_ids(cs)[j] != contract_ids(cs)[i]);
                    } else {
                        assert(contract_ids(cs)[i] != contract_ids(cs)[j]);
                    }
                }
            }
        },
        None => {
            let n = cs.push(c);
            assert(n[cs.len() as int] == c);
            assert(exists|x: int| 0 <= x < n.len() && n[x] == c);
            assert forall|j: int| 0 <= j < n.len() && (#[trigger] n[j]).id@ == c.id@ implies n[j] == c by {
                if j < cs.len() {
                    assert(!contract_has_id(c.id@)(cs[j]));
                }
            }
        },
    }
}

/// An employee added under its id, replacing one with the same id.
pub open spec fn with_employee(es: Seq<Employee>, e: Employee) -> Seq<Employee> {
    match first_where(es, employee_has_id(e.id@)) {
        Some(i) => es.update(i, e),
        None => es.push(e),
    }
}

/// Contracts keyed by id, in order of first appearance; a later record with
/// the same id replaces the earlier one.
pub open spec fn merged_contracts(cs: Seq<Contract>) -> Seq<Contract>
    decreases cs.len(),
{
    if cs.len() == 0 {
        Seq::empty()
    } else {
        with_contract(merged_contracts(cs.drop_last()), cs.last())
    }
}

/// Employees keyed by id, the same way.
pub open spec fn merged_employees(es: Seq<Employee>) -> Seq<Employee>
    decreases es.len(),
{
    if es.len() == 0 {
        Seq::empty()
    } else {
        with_employee(merged_employees(es.drop_last()), es.last())
    }
}

/// Normalisation of ingested records into a dataset.
pub struct Ingest;

impl Ingest {
    /// The dataset of the given contract and employee records, each keyed by
    /// its id (a later record with an id already seen replaces the earlier).
    pub fn from_records(contracts: Vec<Contract>, employees: Vec<Employee>) -> (r: Dataset)
        ensures
            r.wf(),
            r.contract_seq() == merged_contracts(contracts@),
            r.employee_seq() == merged_employees(employees@),
    {
        let mut ds = Dataset::new();
        assert(ds.contract_seq() =~= merged_contracts(contracts@.take(0)));
        assert(ds.employee_seq() =~= merged_employees(employees@.take(0)));
        let mut cs = contracts;
        let ghost all_c = cs@;
        let mut rev_c: Vec<Contract> = Vec::new();
        while cs.len() > 0
            invariant
                rev_c@.len() + cs@.len() == all_c.len(),
                forall|k: int| 0 <= k < cs@.len() ==> #[trigger] cs@[k] == all_c[k],
                forall|k: int| 0 <= k < rev_c@.len() ==> #[trigger] rev_c@[k] == all_c[all_c.len() - 1 - k],
            decreases cs@.len(),
        {
            let c = cs.pop().unwrap();
            rev_c.push(c);
        }
        let mut i: usize = 0;
        let n = rev_c.len();
        while rev_c.len() > 0
            invariant
                n == all_c.len(),
                i + rev_c@.len() == n,
                forall|k: int| 0 <= k < rev_c@.len() ==> #[trigger] rev_c@[k] == all_c[n - 1 - k],
                ds.wf(),
                ds.contract_seq() == merged_contracts(all_c.take(i as int)),
                ds.employee_seq() == merged_employees(employees@.take(0)),
            decreases rev_c@.len(),
        {
            let c = rev_c.pop().unwrap();
            assert(c == all_c[i as int]);
            assert(all_c.take(i + 1).drop_last() =~= all_c.take(i as int));
            ds.insert_contract(c);
            i = i + 1;
        }
        assert(all_c.take(n as int) =~= all_c);
        let mut es = employees;
        let ghost all_e = es@;
        let mut rev_e: Vec<Employee> = Vec::new();
        while es.len() > 0
            invariant
                rev_e@.len() + es@.len() == all_e.len(),
                forall|k: int| 0 <= k < es@.len() ==> #[trigger] es@[k] == all_e[k],
                forall|k: int| 0 <= k < rev_e@.len() ==> #[trigger] rev_e@[k] == all_e[all_e.len() - 1 - k],
            decreases es@.len(),
        {
            let e = es.pop().unwrap();
            rev_e.push(e);
        }
        let mut j: usize = 0;
        let m = rev_e.len();
        assert(merged_employees(all_e.take(0)) =~= merged_employees(employees@.take(0)));
        while rev_e.len() > 0
            invariant
                m == all_e.len(),
                j + rev_e@.len() == m,
                forall|k: int| 0 <= k < rev_e@.len() ==> #[trigger] rev_e@[k] == all_e[m - 1 - k],
                ds.wf(),
                ds.contract_seq() == merged_contracts(all_c),
                ds.employee_seq() == merged_employees(all_e.take(j as int)),
            decreases rev_e@.len(),
        {
            let e = rev_e.pop().unwrap();
            assert(e == all_e[j as int]);
            assert(all_e.take(j + 1).drop_last() =~= all_e.take(j as int));
            ds.insert_employee(e);
            j = j + 1;
        }
        assert(all_e.take(m as int) =~= all_e);
        ds
    }
}

} // verus!
