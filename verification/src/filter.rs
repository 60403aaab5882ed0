//! The row filter of a search: which tests on which columns a payload
//! asks for. The dataset engine applies them; here they are plain values.

use vstd::prelude::*;
use vstd::string::{StrSliceExecFns, StringExecFns};

verus! {

/// One column to sort by, and the direction.
#[derive(Debug)]
pub struct Order {
    pub column: String,
    pub asc: bool,
}

/// What a search asks for: the rows to select, and how to group,
/// aggregate and order them.
#[allow(non_snake_case)]
#[derive(Debug)]
pub struct StatisticSearchPayload {
    pub search: Option<String>,
    pub make: Option<String>,
    pub model: Option<String>,
    pub engine: Option<Vec<String>>,
    pub gearbox: Option<String>,
    pub yearFrom: Option<i32>,
    pub yearTo: Option<i32>,
    pub year: Option<i32>,
    pub powerFrom: Option<i32>,
    pub powerTo: Option<i32>,
    pub power: Option<i32>,
    pub mileageFrom: Option<i32>,
    pub mileageTo: Option<i32>,
    pub mileage: Option<i32>,
    pub ccFrom: Option<i32>,
    pub ccTo: Option<i32>,
    pub cc: Option<i32>,
    pub saveDiffFrom: Option<i32>,
    pub saveDiffTo: Option<i32>,
    pub discountFrom: Option<i32>,
    pub discountTo: Option<i32>,
    pub createdOnFrom: Option<i32>,
    pub createdOnTo: Option<i32>,
    pub group: Vec<String>,
    pub aggregators: Vec<String>,
    pub order: Vec<Order>,
    pub stat_column: Option<String>,
    pub estimated_price: Option<i32>,
    pub price: Option<i32>,
    pub priceFrom: Option<i32>,
    pub priceTo: Option<i32>,
}

/// How a column is held against a value.
#[derive(Debug, Clone, Copy, PartialEq, Eq, Structural)]
pub enum Operator {
    Equal,
    NotEqual,
    AtLeast,
    AtMost,
    Contains,
    StartsWith,
    EndsWith,
}

/// The value a column is held against.
#[derive(Debug)]
pub enum Operand {
    Text(String),
    Number(i32),
    /// The date that lies this many days before today.
    DaysAgo(i32),
}

/// One test of one column.
#[derive(Debug)]
pub struct Test {
    pub column: String,
    pub operator: Operator,
    pub operand: Operand,
}

/// Tests of which a row must pass at least one.
#[derive(Debug)]
pub struct Clause {
    pub any_of: Vec<Test>,
}

/// What an `Operand` says.
pub enum OperandView {
    Text(Seq<char>),
    Number(int),
    DaysAgo(int),
}

/// What a `Test` says.
pub struct TestView {
    pub column: Seq<char>,
    pub operator: Operator,
    pub operand: OperandView,
}

impl View for Operand {
    type V = OperandView;

    open spec fn view(&self) -> OperandView {
        match self {
            Operand::Text(s) => OperandView::Text(s@),
            Operand::Number(n) => OperandView::Number(*n as int),
            Operand::DaysAgo(n) => OperandView::DaysAgo(*n as int),
        }
    }
}

impl View for Test {
    type V = TestView;

    open spec fn view(&self) -> TestView {
        TestView { column: self.column@, operator: self.operator, operand: self.operand@ }
    }
}

impl View for Clause {
    type V = Seq<TestView>;

    open spec fn view(&self) -> Seq<TestView> {
        Seq::new(self.any_of@.len(), |i: int| self.any_of@[i]@)
    }
}

/// The views of the clauses of `v`, in their order.
pub open spec fn clause_views(v: Seq<Clause>) -> Seq<Seq<TestView>> {
    Seq::new(v.len(), |i: int| v[i]@)
}

/// The texts of `v`, in their order.
pub open spec fn texts(v: Seq<String>) -> Seq<Seq<char>> {
    Seq::new(v.len(), |i: int| v[i]@)
}

/// The parts of a payload that select rows.
#[allow(non_snake_case)]
pub struct SelectionView {
    pub search: Option<Seq<char>>,
    pub make: Option<Seq<char>>,
    pub model: Option<Seq<char>>,
    pub engine: Option<Seq<Seq<char>>>,
    pub gearbox: Option<Seq<char>>,
    pub year_from: Option<int>,
    pub year_to: Option<int>,
    pub year: Option<int>,
    pub power_from: Option<int>,
    pub power_to: Option<int>,
    pub power: Option<int>,
    pub mileage_from: Option<int>,
    pub mileage_to: Option<int>,
    pub mileage: Option<int>,
    pub cc_from: Option<int>,
    pub cc_to: Option<int>,
    pub cc: Option<int>,
    pub save_diff_from: Option<int>,
    pub save_diff_to: Option<int>,
    pub discount_from: Option<int>,
    pub discount_to: Option<int>,
    pub created_on_from: Option<int>,
    pub created_on_to: Option<int>,
    pub estimated_price: Option<int>,
    pub price: Option<int>,
}

/// The text of an optional string.
pub open spec fn text_of(s: Option<String>) -> Option<Seq<char>> {
    match s {
        Some(t) => Some(t@),
        None => None,
    }
}

/// The texts of an optional list of strings.
pub open spec fn texts_of(v: Option<Vec<String>>) -> Option<Seq<Seq<char>>> {
    match v {
        Some(list) => Some(texts(list@)),
        None => None,
    }
}

/// The integer of an optional number.
pub open spec fn number_of(n: Option<i32>) -> Option<int> {
    match n {
        Some(v) => Some(v as int),
        None => None,
    }
}

impl StatisticSearchPayload {
    /// The parts of the payload that select rows.
    pub open spec fn selection(&self) -> SelectionView {
        SelectionView {
            search: text_of(self.search),
            make: text_of(self.make),
            model: text_of(self.model),
            engine: texts_of(self.engine),
            gearbox: text_of(self.gearbox),
            year_from: number_of(self.yearFrom),
            year_to: number_of(self.yearTo),
            year: number_of(self.year),
            power_from: number_of(self.powerFrom),
            power_to: number_of(self.powerTo),
            power: number_of(self.power),
            mileage_from: number_of(self.mileageFrom),
            mileage_to: number_of(self.mileageTo),
            mileage: number_of(self.mileage),
            cc_from: number_of(self.ccFrom),
            cc_to: number_of(self.ccTo),
            cc: number_of(self.cc),
            save_diff_from: number_of(self.saveDiffFrom),
            save_diff_to: number_of(self.saveDiffTo),
            discount_from: number_of(self.discountFrom),
            discount_to: number_of(self.discountTo),
            created_on_from: number_of(self.createdOnFrom),
            created_on_to: number_of(self.createdOnTo),
            estimated_price: number_of(self.estimated_price),
            price: number_of(self.price),
        }
    }
}

/// The lowercase form of a text, as the standard library gives it.
pub uninterp spec fn lowercase_of(s: Seq<char>) -> Seq<char>;

/// `str::to_lowercase` of the standard library: the lowercase equivalent
/// of the text as a new string. Nothing is said of it but that the
/// result is that of the text alone.
#[verifier::external_body]
fn lowercase(s: &str) -> (r: String)
    ensures
        r@ == lowercase_of(s@),
{
    s.to_lowercase()
}

/// `s` without its asterisks.
pub open spec fn without_stars(s: Seq<char>) -> Seq<char> {
    s.filter(|c: char| c != '*')
}

/// A test of `column` against a text.
pub open spec fn text_test(column: Seq<char>, operator: Operator, text: Seq<char>) -> TestView {
    TestView { column, operator, operand: OperandView::Text(text) }
}

/// A test of `column` against a number.
pub open spec fn number_test(column: Seq<char>, operator: Operator, n: int) -> TestView {
    TestView { column, operator, operand: OperandView::Number(n) }
}

/// The test that a pattern asks of `column`: a pattern that begins with
/// an asterisk asks for texts that end with the rest, one that ends with
/// an asterisk for texts that begin with the rest, any other for texts
/// that contain it. Asterisks are left out of what is looked for.
pub open spec fn like_test(column: Seq<char>, pattern: Seq<char>) -> TestView {
    if pattern.len() > 0 && pattern[0] == '*' {
        text_test(column, Operator::EndsWith, without_stars(pattern))
    } else if pattern.len() > 0 && pattern[pattern.len() - 1] == '*' {
        text_test(column, Operator::StartsWith, without_stars(pattern))
    } else {
        text_test(column, Operator::Contains, pattern)
    }
}

/// The clause of a free-text search: the title or the equipment is like
/// the lowercase form of the text.
pub open spec fn search_part(search: Option<Seq<char>>) -> Seq<Seq<TestView>> {
    match search {
        Some(s) => seq![
            seq![
                like_test("title"@, lowercase_of(s)),
                like_test("equipment"@, lowercase_of(s)),
            ],
        ],
        None => Seq::empty(),
    }
}

/// The clause that `column` equals the text, where one is given.
pub open spec fn text_part(column: Seq<char>, value: Option<Seq<char>>) -> Seq<Seq<TestView>> {
    match value {
        Some(t) => seq![seq![text_test(column, Operator::Equal, t)]],
        None => Seq::empty(),
    }
}

/// The clause that `column` equals one of the texts, where any is given.
pub open spec fn choice_part(column: Seq<char>, values: Option<Seq<Seq<char>>>) -> Seq<
    Seq<TestView>,
> {
    match values {
        Some(v) => if v.len() > 0 {
            seq![Seq::new(v.len(), |i: int| text_test(column, Operator::Equal, v[i]))]
        } else {
            Seq::empty()
        },
        None => Seq::empty(),
    }
}

/// The clause that holds `column` against the number, where one is given.
pub open spec fn number_part(column: Seq<char>, operator: Operator, value: Option<int>) -> Seq<
    Seq<TestView>,
> {
    match value {
        Some(n) => seq![seq![number_test(column, operator, n)]],
        None => Seq::empty(),
    }
}

/// The clauses of a column that can be asked for exactly or by range:
/// the exact value where given, else the bounds that are given.
pub open spec fn exact_or_range_part(
    column: Seq<char>,
    exact: Option<int>,
    from: Option<int>,
    to: Option<int>,
) -> Seq<Seq<TestView>> {
    match exact {
        Some(n) => seq![seq![number_test(column, Operator::Equal, n)]],
        None => number_part(column, Operator::AtLeast, from) + number_part(
            column,
            Operator::AtMost,
            to,
        ),
    }
}

/// The clause that holds `column` against the date so many days ago,
/// where a number of days is given.
pub open spec fn days_part(column: Seq<char>, operator: Operator, days: Option<int>) -> Seq<
    Seq<TestView>,
> {
    match days {
        Some(n) => seq![seq![TestView { column, operator, operand: OperandView::DaysAgo(n) }]],
        None => Seq::empty(),
    }
}

/// The clauses that a selection asks for, before the case of none.
pub open spec fn clauses_of(p: SelectionView) -> Seq<Seq<TestView>> {
    search_part(p.search) + text_part("make"@, p.make) + text_part("model"@, p.model)
        + choice_part("engine"@, p.engine) + text_part("gearbox"@, p.gearbox) + number_part(
        "estimated_price_in_eur"@,
        Operator::AtLeast,
        p.estimated_price,
    ) + number_part("price_in_eur"@, Operator::AtLeast, p.price) + exact_or_range_part(
        "year"@,
        p.year,
        p.year_from,
        p.year_to,
    ) + number_part("discount"@, Operator::AtLeast, p.discount_from) + number_part(
        "discount"@,
        Operator::AtMost,
        p.discount_to,
    ) + number_part("save_diff_in_eur"@, Operator::AtLeast, p.save_diff_from) + number_part(
        "save_diff_in_eur"@,
        Operator::AtMost,
        p.save_diff_to,
    ) + exact_or_range_part("power"@, p.power, p.power_from, p.power_to) + exact_or_range_part(
        "mileage"@,
        p.mileage,
        p.mileage_from,
        p.mileage_to,
    ) + exact_or_range_part("cc"@, p.cc, p.cc_from, p.cc_to) + days_part(
        "created_on"@,
        Operator::AtLeast,
        p.created_on_from,
    ) + days_part("created_on"@, Operator::AtMost, p.created_on_to)
}

/// The row filter of a selection: a row is selected where it passes
/// every clause. A selection that asks for nothing gives the one clause
/// that every row with a make passes.
pub open spec fn predicate_of(p: SelectionView) -> Seq<Seq<TestView>> {
    if clauses_of(p).len() == 0 {
        seq![seq![text_test("make"@, Operator::NotEqual, "x"@)]]
    } else {
        clauses_of(p)
    }
}

/// Removes the asterisks from `s`.
fn strip_stars(s: &str) -> (r: String)
    ensures
        r@ == without_stars(s@),
{
    let n = s.unicode_len();
    let mut out = String::new();
    let mut i: usize = 0;
    let ghost keep = |c: char| c != '*';
    proof {
        reveal(Seq::filter);
        assert(s@.take(0) =~= Seq::<char>::empty());
    }
    while i < n
        invariant
            0 <= i <= n,
            n == s@.len(),
            keep == (|c: char| c != '*'),
            out@ == s@.take(i as int).filter(keep),
        decreases n - i,
    {
        let c = s.get_char(i);
        proof {
            reveal(Seq::filter);
            assert(s@.take(i + 1).drop_last() =~= s@.take(i as int));
            assert(s@.take(i + 1).last() == c);
        }
        if c != '*' {
            out.append(s.substring_char(i, i + 1));
            assert(s@.subrange(i as int, i + 1) =~= seq![c]);
            assert(s@.take(i as int).filter(keep) + seq![c] =~= s@.take(i as int).filter(keep).push(
                c,
            ));
        }
        i += 1;
    }
    assert(s@.take(n as int) =~= s@);
    out
}

/// The test that `pattern` asks of `column`.
fn like(column: &str, pattern: &String) -> (r: Test)
    ensures
        r@ == like_test(column@, pattern@),
{
    let p = pattern.as_str();
    let n = p.unicode_len();
    if n > 0 && p.get_char(0) == '*' {
        Test {
            column: String::from_str(column),
            operator: Operator::EndsWith,
            operand: Operand::Text(strip_stars(p)),
        }
    } else if n > 0 && p.get_char(n - 1) == '*' {
        Test {
            column: String::from_str(column),
            operator: Operator::StartsWith,
            operand: Operand::Text(strip_stars(p)),
        }
    } else {
        Test {
            column: String::from_str(column),
            operator: Operator::Contains,
            operand: Operand::Text(pattern.clone()),
        }
    }
}

/// The tests that the patterns ask of their columns, in their order.
pub open spec fn like_tests(filter: Seq<(String, String)>) -> Seq<TestView> {
    Seq::new(filter.len(), |i: int| like_test(filter[i].0@, filter[i].1@))
}

/// The clause that some column is like its pattern: one test for each
/// pair of a column and a pattern, of which a row must pass at least
/// one. None where there is no pair. All tests form the one clause, so
/// `join_and` has nothing to join and changes nothing.
pub fn to_like_predicate(filter: &Vec<(String, String)>, join_and: bool) -> (r: Option<Clause>)
    ensures
        filter@.len() == 0 ==> r is None,
        filter@.len() > 0 ==> (r matches Some(clause) && clause@ == like_tests(filter@)),
{
    if filter.len() == 0 {
        return None;
    }
    let mut any_of: Vec<Test> = Vec::new();
    let mut i: usize = 0;
    while i < filter.len()
        invariant
            0 <= i <= filter.len(),
            any_of@.len() == i,
            forall|j: int|
                0 <= j < i ==> (#[trigger] any_of@[j])@ == like_test(filter@[j].0@, filter@[j].1@),
        decreases filter.len() - i,
    {
        any_of.push(like(filter[i].0.as_str(), &filter[i].1));
        i += 1;
    }
    let clause = Clause { any_of };
    assert(clause@ =~= like_tests(filter@));
    Some(clause)
}

/// Appends the clause of a free-text search, where one is asked for.
fn push_search(out: &mut Vec<Clause>, search: &Option<String>)
    ensures
        clause_views(final(out)@) == clause_views(old(out)@) + search_part(text_of(*search)),
{
    match search {
        Some(s) => {
            let lower = lowercase(s.as_str());
            let mut filter: Vec<(String, String)> = Vec::new();
            filter.push((String::from_str("title"), lower.clone()));
            filter.push((String::from_str("equipment"), lower));
            let clause = to_like_predicate(&filter, true).unwrap();
            assert(clause@ =~= seq![
                like_test("title"@, lowercase_of(s@)),
                like_test("equipment"@, lowercase_of(s@)),
            ]);
            out.push(clause);
            assert(clause_views(out@) =~= clause_views(old(out)@) + search_part(text_of(*search)));
        },
        None => {
            assert(clause_views(out@) =~= clause_views(old(out)@) + search_part(text_of(*search)));
        },
    }
}

/// Appends the clause that `column` equals `value`, where one is given.
fn push_text(out: &mut Vec<Clause>, column: &str, value: &Option<String>)
    ensures
        clause_views(final(out)@) == clause_views(old(out)@) + text_part(column@, text_of(*value)),
{
    match value {
        Some(t) => {
            let mut any_of: Vec<Test> = Vec::new();
            any_of.push(
                Test {
                    column: String::from_str(column),
                    operator: Operator::Equal,
                    operand: Operand::Text(t.clone()),
                },
            );
            let clause = Clause { any_of };
            assert(clause@ =~= seq![text_test(column@, Operator::Equal, t@)]);
            out.push(clause);
        },
        None => {},
    }
    assert(clause_views(out@) =~= clause_views(old(out)@) + text_part(column@, text_of(*value)));
}

/// Appends the clause that `column` equals one of `values`, where any is
/// given.
fn push_choice(out: &mut Vec<Clause>, column: &str, values: &Option<Vec<String>>)
    ensures
        clause_views(final(out)@) == clause_views(old(out)@) + choice_part(
            column@,
            texts_of(*values),
        ),
{
    let ghost wanted = choice_part(column@, texts_of(*values));
    match values {
        Some(v) => {
            if v.len() > 0 {
                let mut any_of: Vec<Test> = Vec::new();
                let mut i: usize = 0;
                while i < v.len()
                    invariant
                        0 <= i <= v.len(),
                        any_of@.len() == i,
                        forall|j: int|
                            0 <= j < i ==> (#[trigger] any_of@[j])@ == text_test(
                                column@,
                                Operator::Equal,
                                v@[j]@,
                            ),
                    decreases v.len() - i,
                {
                    any_of.push(
                        Test {
                            column: String::from_str(column),
                            operator: Operator::Equal,
                            operand: Operand::Text(v[i].clone()),
                        },
                    );
                    i += 1;
                }
                let clause = Clause { any_of };
                assert(clause@ =~= Seq::new(
                    texts(v@).len(),
                    |i: int| text_test(column@, Operator::Equal, texts(v@)[i]),
                ));
                out.push(clause);
            }
        },
        None => {},
    }
    assert(clause_views(out@) =~= clause_views(old(out)@) + wanted);
}

/// Appends the clause that holds `column` against `value`, where one is
/// given.
fn push_number(out: &mut Vec<Clause>, column: &str, operator: Operator, value: Option<i32>)
    ensures
        clause_views(final(out)@) == clause_views(old(out)@) + number_part(
            column@,
            operator,
            number_of(value),
        ),
{
    match value {
        Some(n) => {
            let mut any_of: Vec<Test> = Vec::new();
            any_of.push(
                Test { column: String::from_str(column), operator, operand: Operand::Number(n) },
            );
            let clause = Clause { any_of };
            assert(clause@ =~= seq![number_test(column@, operator, n as int)]);
            out.push(clause);
        },
        None => {},
    }
    assert(clause_views(out@) =~= clause_views(old(out)@) + number_part(
        column@,
        operator,
        number_of(value),
    ));
}

/// Appends the clauses of a column asked for exactly or by range.
fn push_exact_or_range(
    out: &mut Vec<Clause>,
    column: &str,
    exact: Option<i32>,
    from: Option<i32>,
    to: Option<i32>,
)
    ensures
        clause_views(final(out)@) == clause_views(old(out)@) + exact_or_range_part(
            column@,
            number_of(exact),
            number_of(from),
            number_of(to),
        ),
{
    match exact {
        Some(n) => {
            push_number(out, column, Operator::Equal, exact);
        },
        None => {
            push_number(out, column, Operator::AtLeast, from);
            push_number(out, column, Operator::AtMost, to);
            assert((clause_views(old(out)@) + number_part(column@, Operator::AtLeast, number_of(from)))
                + number_part(column@, Operator::AtMost, number_of(to)) =~= clause_views(old(out)@)
                + (number_part(column@, Operator::AtLeast, number_of(from)) + number_part(
                column@,
                Operator::AtMost,
                number_of(to),
            )));
        },
    }
}

/// Appends the clause that holds `column` against the date `days` days
/// ago, where a number of days is given.
fn push_days(out: &mut Vec<Clause>, column: &str, operator: Operator, days: Option<i32>)
    ensures
        clause_views(final(out)@) == clause_views(old(out)@) + days_part(
            column@,
            operator,
            number_of(days),
        ),
{
    match days {
        Some(n) => {
            let mut any_of: Vec<Test> = Vec::new();
            any_of.push(
                Test { column: String::from_str(column), operator, operand: Operand::DaysAgo(n) },
            );
            let clause = Clause { any_of };
            assert(clause@ =~= seq![
                TestView { column: column@, operator, operand: OperandView::DaysAgo(n as int) },
            ]);
            out.push(clause);
        },
        None => {},
    }
    assert(clause_views(out@) =~= clause_views(old(out)@) + days_part(
        column@,
        operator,
        number_of(days),
    ));
}

/// The row filter that `search` asks for: the clauses of `predicate_of`,
/// every one of which a selected row passes.
pub fn to_predicate(search: &StatisticSearchPayload) -> (r: Vec<Clause>)
    ensures
        clause_views(r@) == predicate_of(search.selection()),
{
    let mut out: Vec<Clause> = Vec::new();
    assert(clause_views(out@) =~= Seq::<Seq<TestView>>::empty());
    push_search(&mut out, &search.search);
    push_text(&mut out, "make", &search.make);
    push_text(&mut out, "model", &search.model);
    push_choice(&mut out, "engine", &search.engine);
    push_text(&mut out, "gearbox", &search.gearbox);
    push_number(&mut out, "estimated_price_in_eur", Operator::AtLeast, search.estimated_price);
    push_number(&mut out, "price_in_eur", Operator::AtLeast, search.price);
    push_exact_or_range(&mut out, "year", search.year, search.yearFrom, search.yearTo);
    push_number(&mut out, "discount", Operator::AtLeast, search.discountFrom);
    push_number(&mut out, "discount", Operator::AtMost, search.discountTo);
    push_number(&mut out, "save_diff_in_eur", Operator::AtLeast, search.saveDiffFrom);
    push_number(&mut out, "save_diff_in_eur", Operator::AtMost, search.saveDiffTo);
    push_exact_or_range(&mut out, "power", search.power, search.powerFrom, search.powerTo);
    push_exact_or_range(&mut out, "mileage", search.mileage, search.mileageFrom, search.mileageTo);
    push_exact_or_range(&mut out, "cc", search.cc, search.ccFrom, search.ccTo);
    push_days(&mut out, "created_on", Operator::AtLeast, search.createdOnFrom);
    push_days(&mut out, "created_on", Operator::AtMost, search.createdOnTo);
    assert(clause_views(out@) =~= clauses_of(search.selection()));
    if out.len() == 0 {
        let mut any_of: Vec<Test> = Vec::new();
        any_of.push(
            Test {
                column: String::from_str("make"),
                operator: Operator::NotEqual,
                operand: Operand::Text(String::from_str("x")),
            },
        );
        let clause = Clause { any_of };
        assert(clause@ =~= seq![text_test("make"@, Operator::NotEqual, "x"@)]);
        out.push(clause);
        assert(clause_views(out@) =~= seq![clause@]);
    }
    out
}

} // verus!
