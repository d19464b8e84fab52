//! The book of questions: the open ones, the answered ones, and the number
//! that the next question gets.

use vstd::prelude::*;

verus! {

/// A question, with its answer once it has one.
#[derive(Clone, Debug, PartialEq, Eq)]
pub struct Question {
    pub id: u64,
    pub asker: String,
    pub question_content: String,
    pub answered: bool,
    pub answer_content: Option<String>,
}

/// What a `Question` stands for.
pub struct QuestionView {
    pub id: u64,
    pub asker: Seq<char>,
    pub question_content: Seq<char>,
    pub answered: bool,
    pub answer_content: Option<Seq<char>>,
}

impl View for Question {
    type V = QuestionView;

    open spec fn view(&self) -> QuestionView {
        QuestionView {
            id: self.id,
            asker: self.asker@,
            question_content: self.question_content@,
            answered: self.answered,
            answer_content: match self.answer_content {
                Some(text) => Some(text@),
                None => None,
            },
        }
    }
}


/// The questions of a list, each as what it stands for.
pub open spec fn questions_view(questions: Seq<Question>) -> Seq<QuestionView> {
    questions.map_values(|q: Question| q@)
}

/// The numbers of a list rise from question to question, so none occurs
/// twice.
pub open spec fn numbered_ascending(questions: Seq<QuestionView>) -> bool {
    forall|i: int, j: int|
        #![trigger questions[i], questions[j]]
        0 <= i < j < questions.len() ==> questions[i].id < questions[j].id
}

/// Every question of the list has a number below `bound`.
pub open spec fn numbered_below(questions: Seq<QuestionView>, bound: u64) -> bool {
    forall|i: int| 0 <= i < questions.len() ==> (#[trigger] questions[i]).id < bound
}

/// Place `i` of the list holds the question with the number `id`.
pub open spec fn numbered_at(questions: Seq<QuestionView>, id: u64, i: int) -> bool {
    0 <= i < questions.len() && questions[i].id == id
}

/// The list holds a question with the number `id`.
pub open spec fn is_numbered(questions: Seq<QuestionView>, id: u64) -> bool {
    exists|i: int| numbered_at(questions, id, i)
}

/// The question with the number `id`, if the list holds one.
pub open spec fn question_in(questions: Seq<QuestionView>, id: u64) -> Option<QuestionView> {
    if is_numbered(questions, id) {
        Some(questions[choose|i: int| numbered_at(questions, id, i)])
    } else {
        None
    }
}

/// On an ascending list, the question found under the number at place `i` is
/// the one at that place.
pub proof fn lemma_question_at_place(questions: Seq<QuestionView>, i: int)
    requires
        numbered_ascending(questions),
        0 <= i < questions.len(),
    ensures
        question_in(questions, questions[i].id) == Some(questions[i]),
{
    let id = questions[i].id;
    assert(numbered_at(questions, id, i));
    let k: int = choose|k: int| numbered_at(questions, id, k);
    if k < i {
        assert(questions[k].id < questions[i].id);
    } else if i < k {
        assert(questions[i].id < questions[k].id);
    }
}

/// What a new question in its place does to an ascending list.
pub proof fn lemma_question_inserted(questions: Seq<QuestionView>, at: int, question: QuestionView)
    requires
        numbered_ascending(questions),
        0 <= at <= questions.len(),
        forall|j: int| 0 <= j < at ==> (#[trigger] questions[j]).id < question.id,
        forall|j: int| at <= j < questions.len() ==> question.id < (#[trigger] questions[j]).id,
    ensures
        numbered_ascending(questions.insert(at, question)),
        forall|id: u64|
            #[trigger] question_in(questions.insert(at, question), id) == (if id == question.id {
                Some(question)
            } else {
                question_in(questions, id)
            }),
        forall|bound: u64|
            numbered_below(questions, bound) && question.id < bound ==> #[trigger] numbered_below(
                questions.insert(at, question),
                bound,
            ),
{
    let after = questions.insert(at, question);
    questions.insert_ensures(at, question);
    assert forall|i: int, j: int| 0 <= i < j < after.len() implies after[i].id
        < after[j].id by {
        let oi: int = if i < at {
            i
        } else {
            i - 1
        };
        let oj: int = if j < at {
            j
        } else {
            j - 1
        };
        if i != at {
            assert(after[i] == questions[oi]);
        }
        if j != at {
            assert(after[j] == questions[oj]);
        }
        if i != at && j != at {
            assert(questions[oi].id < questions[oj].id);
        }
    }
    assert forall|id: u64| #[trigger]
        question_in(after, id) == (if id == question.id {
            Some(question)
        } else {
            question_in(questions, id)
        }) by {
        if id == question.id {
            lemma_question_at_place(after, at);
        } else if is_numbered(questions, id) {
            let k: int = choose|k: int| numbered_at(questions, id, k);
            lemma_question_at_place(questions, k);
            if k < at {
                assert(after[k] == questions[k]);
                lemma_question_at_place(after, k);
            } else {
                assert(after[k + 1] == questions[k]);
                lemma_question_at_place(after, k + 1);
            }
        } else if is_numbered(after, id) {
            let k: int = choose|k: int| numbered_at(after, id, k);
            if k < at {
                assert(numbered_at(questions, id, k));
            } else {
                assert(after[k] == questions[k - 1]);
                assert(numbered_at(questions, id, k - 1));
            }
        }
    }
    assert forall|bound: u64|
        numbered_below(questions, bound) && question.id < bound implies #[trigger] numbered_below(
        after,
        bound,
    ) by {
        assert forall|i: int| 0 <= i < after.len() implies (#[trigger] after[i]).id < bound by {
            if i < at {
                assert(after[i] == questions[i]);
            } else if i > at {
                assert(after[i] == questions[i - 1]);
            }
        }
    }
}

/// What another question under the same number does to an ascending list.
pub proof fn lemma_question_updated(questions: Seq<QuestionView>, at: int, question: QuestionView)
    requires
        numbered_ascending(questions),
        0 <= at < questions.len(),
        questions[at].id == question.id,
    ensures
        numbered_ascending(questions.update(at, question)),
        forall|id: u64|
            #[trigger] question_in(questions.update(at, question), id) == (if id == question.id {
                Some(question)
            } else {
                question_in(questions, id)
            }),
        forall|bound: u64|
            numbered_below(questions, bound) ==> #[trigger] numbered_below(
                questions.update(at, question),
                bound,
            ),
{
    let after = questions.update(at, question);
    assert forall|i: int, j: int| 0 <= i < j < after.len() implies after[i].id
        < after[j].id by {
        assert(questions[i].id < questions[j].id);
    }
    assert forall|id: u64| #[trigger]
        question_in(after, id) == (if id == question.id {
            Some(question)
        } else {
            question_in(questions, id)
        }) by {
        if id == question.id {
            lemma_question_at_place(after, at);
        } else if is_numbered(questions, id) {
            let k: int = choose|k: int| numbered_at(questions, id, k);
            lemma_question_at_place(questions, k);
            assert(after[k] == questions[k]);
            lemma_question_at_place(after, k);
        } else if is_numbered(after, id) {
            let k: int = choose|k: int| numbered_at(after, id, k);
            assert(numbered_at(questions, id, k));
        }
    }
    assert forall|bound: u64| numbered_below(questions, bound) implies #[trigger] numbered_below(
        after,
        bound,
    ) by {
        assert forall|i: int| 0 <= i < after.len() implies (#[trigger] after[i]).id < bound by {
            assert(questions[i].id < bound);
        }
    }
}

/// What the loss of a question does to an ascending list.
pub proof fn lemma_question_removed(questions: Seq<QuestionView>, at: int)
    requires
        numbered_ascending(questions),
        0 <= at < questions.len(),
    ensures
        numbered_ascending(questions.remove(at)),
        question_in(questions, questions[at].id) == Some(questions[at]),
        forall|id: u64|
            #[trigger] question_in(questions.remove(at), id) == (if id == questions[at].id {
                None
            } else {
                question_in(questions, id)
            }),
        forall|bound: u64|
            numbered_below(questions, bound) ==> #[trigger] numbered_below(
                questions.remove(at),
                bound,
            ),
{
    let after = questions.remove(at);
    let gone = questions[at].id;
    questions.remove_ensures(at);
    lemma_question_at_place(questions, at);
    assert forall|i: int, j: int| 0 <= i < j < after.len() implies after[i].id
        < after[j].id by {
        let oi: int = if i < at {
            i
        } else {
            i + 1
        };
        let oj: int = if j < at {
            j
        } else {
            j + 1
        };
        assert(after[i] == questions[oi]);
        assert(after[j] == questions[oj]);
        assert(questions[oi].id < questions[oj].id);
    }
    assert forall|id: u64| #[trigger]
        question_in(after, id) == (if id == gone {
            None
        } else {
            question_in(questions, id)
        }) by {
        if is_numbered(after, id) {
            let k: int = choose|k: int| numbered_at(after, id, k);
            let ok: int = if k < at {
                k
            } else {
                k + 1
            };
            assert(after[k] == questions[ok]);
            assert(numbered_at(questions, id, ok));
            if ok < at {
                assert(questions[ok].id < questions[at].id);
            } else {
                assert(questions[at].id < questions[ok].id);
            }
            lemma_question_at_place(after, k);
            lemma_question_at_place(questions, ok);
        } else if id != gone && is_numbered(questions, id) {
            let k: int = choose|k: int| numbered_at(questions, id, k);
            if k < at {
                assert(after[k] == questions[k]);
                assert(numbered_at(after, id, k));
            } else {
                assert(after[k - 1] == questions[k]);
                assert(numbered_at(after, id, k - 1));
            }
        }
    }
    assert forall|bound: u64| numbered_below(questions, bound) implies #[trigger] numbered_below(
        after,
        bound,
    ) by {
        assert forall|i: int| 0 <= i < after.len() implies (#[trigger] after[i]).id < bound by {
            if i < at {
                assert(after[i] == questions[i]);
            } else {
                assert(after[i] == questions[i + 1]);
            }
        }
    }
}


/// The questions under the numbers fix the list: two ascending lists that
/// hold the same question under every number are the same list.
pub proof fn lemma_list_determined(a: Seq<QuestionView>, b: Seq<QuestionView>)
    requires
        numbered_ascending(a),
        numbered_ascending(b),
        forall|id: u64| question_in(a, id) == question_in(b, id),
    ensures
        a == b,
    decreases a.len(),
{
    if a.len() == 0 {
        if b.len() > 0 {
            lemma_question_at_place(b, 0);
            assert(question_in(a, b[0].id) is None);
        }
        assert(a =~= b);
    } else {
        let last_a: int = a.len() - 1;
        lemma_question_at_place(a, last_a);
        assert(question_in(b, a[last_a].id) == Some(a[last_a]));
        let k: int = choose|k: int| numbered_at(b, a[last_a].id, k);
        let last_b: int = b.len() - 1;
        lemma_question_at_place(b, last_b);
        lemma_question_at_place(b, k);
        assert(question_in(a, b[last_b].id) == Some(b[last_b]));
        let m: int = choose|m: int| numbered_at(a, b[last_b].id, m);
        if k < last_b {
            assert(b[k].id < b[last_b].id);
            if m < last_a {
                assert(a[m].id < a[last_a].id);
            }
        }
        assert(a[last_a] == b[last_b]);
        lemma_question_removed(a, last_a);
        lemma_question_removed(b, last_b);
        assert(a.remove(last_a) =~= a.drop_last());
        assert(b.remove(last_b) =~= b.drop_last());
        assert forall|id: u64| question_in(a.drop_last(), id) == question_in(
            b.drop_last(),
            id,
        ) by {
            assert(question_in(a, id) == question_in(b, id));
        }
        lemma_list_determined(a.drop_last(), b.drop_last());
        assert(a =~= a.drop_last().push(a[last_a]));
        assert(b =~= b.drop_last().push(b[last_b]));
    }
}

/// A copy of a question.
pub fn copy_question(question: &Question) -> (copy: Question)
    ensures
        copy@ == question@,
{
    Question {
        id: question.id,
        asker: question.asker.clone(),
        question_content: question.question_content.clone(),
        answered: question.answered,
        answer_content: match &question.answer_content {
            Some(text) => Some(text.clone()),
            None => None,
        },
    }
}

/// The first place of the list whose number is not below `id`.
fn place_of(questions: &Vec<Question>, id: u64) -> (at: usize)
    ensures
        at <= questions@.len(),
        forall|j: int| 0 <= j < at ==> (#[trigger] questions_view(questions@)[j]).id < id,
        at < questions@.len() ==> questions_view(questions@)[at as int].id >= id,
{
    let mut at: usize = 0;
    while at < questions.len() && questions[at].id < id
        invariant
            at <= questions@.len(),
            forall|j: int| 0 <= j < at ==> (#[trigger] questions_view(questions@)[j]).id < id,
        decreases questions@.len() - at,
    {
        at += 1;
    }
    at
}

/// The question with the number `id`, if the list holds one.
fn find_question(questions: &Vec<Question>, id: u64) -> (found: Option<Question>)
    requires
        numbered_ascending(questions_view(questions@)),
    ensures
        match found {
            Some(question) => question_in(questions_view(questions@), id) == Some(question@),
            None => question_in(questions_view(questions@), id) is None,
        },
{
    let at: usize = place_of(questions, id);
    let ghost list = questions_view(questions@);
    if at < questions.len() && questions[at].id == id {
        proof {
            lemma_question_at_place(list, at as int);
        }
        Some(copy_question(&questions[at]))
    } else {
        proof {
            if is_numbered(list, id) {
                let k: int = choose|k: int| numbered_at(list, id, k);
                if k > at {
                    assert(list[at as int].id < list[k].id);
                }
            }
        }
        None
    }
}

/// Puts `question` under its number, in place of the one that the list may
/// hold under that number.
fn save_question(questions: &mut Vec<Question>, question: Question)
    requires
        numbered_ascending(questions_view(old(questions)@)),
    ensures
        numbered_ascending(questions_view(final(questions)@)),
        forall|id: u64|
            #[trigger] question_in(questions_view(final(questions)@), id) == (if id
                == question.id {
                Some(question@)
            } else {
                question_in(questions_view(old(questions)@), id)
            }),
        forall|bound: u64|
            numbered_below(questions_view(old(questions)@), bound) && question.id < bound
                ==> #[trigger] numbered_below(questions_view(final(questions)@), bound),
{
    let at: usize = place_of(questions, question.id);
    let ghost before = questions_view(questions@);
    let ghost saved = question@;
    if at < questions.len() && questions[at].id == question.id {
        questions.set(at, question);
        proof {
            assert(questions_view(questions@) =~= before.update(at as int, saved));
            lemma_question_updated(before, at as int, saved);
        }
    } else {
        proof {
            assert forall|j: int| at <= j < before.len() implies saved.id < (
            #[trigger] before[j]).id by {
                if j > at {
                    assert(before[at as int].id < before[j].id);
                }
            }
        }
        questions.insert(at, question);
        proof {
            assert(questions_view(questions@) =~= before.insert(at as int, saved));
            lemma_question_inserted(before, at as int, saved);
        }
    }
}

/// Takes the question with the number `id` off the list, if it holds one.
fn remove_question(questions: &mut Vec<Question>, id: u64)
    requires
        numbered_ascending(questions_view(old(questions)@)),
    ensures
        numbered_ascending(questions_view(final(questions)@)),
        forall|other: u64|
            #[trigger] question_in(questions_view(final(questions)@), other) == (if other == id {
                None
            } else {
                question_in(questions_view(old(questions)@), other)
            }),
        forall|bound: u64|
            numbered_below(questions_view(old(questions)@), bound) ==> #[trigger] numbered_below(
                questions_view(final(questions)@),
                bound,
            ),
{
    let at: usize = place_of(questions, id);
    let ghost before = questions_view(questions@);
    if at < questions.len() && questions[at].id == id {
        let _ = questions.remove(at);
        proof {
            assert(questions_view(questions@) =~= before.remove(at as int));
            lemma_question_removed(before, at as int);
        }
    } else {
        proof {
            if is_numbered(before, id) {
                let k: int = choose|k: int| numbered_at(before, id, k);
                if k > at {
                    assert(before[at as int].id < before[k].id);
                }
            }
        }
    }
}

/// Whether the numbers of the list rise and stay below `bound`.
fn in_order_below(questions: &Vec<Question>, bound: u64) -> (in_order: bool)
    ensures
        in_order == (numbered_ascending(questions_view(questions@)) && numbered_below(
            questions_view(questions@),
            bound,
        )),
{
    let ghost list = questions_view(questions@);
    let mut i: usize = 0;
    while i < questions.len()
        invariant
            list == questions_view(questions@),
            i <= list.len(),
            numbered_ascending(list.take(i as int)),
            numbered_below(list.take(i as int), bound),
        decreases list.len() - i,
    {
        if questions[i].id >= bound {
            proof {
                assert(list[i as int].id >= bound);
            }
            return false;
        }
        if i > 0 && questions[i - 1].id >= questions[i].id {
            proof {
                assert(list[i - 1].id >= list[i as int].id);
            }
            return false;
        }
        proof {
            let seen = list.take(i as int);
            let next = list.take(i + 1);
            assert forall|a: int, b: int| 0 <= a < b < next.len() implies next[a].id
                < next[b].id by {
                if b < i {
                    assert(seen[a].id < seen[b].id);
                } else if a < i - 1 {
                    assert(seen[a].id < seen[i - 1].id);
                }
            }
            assert forall|a: int| 0 <= a < next.len() implies (#[trigger] next[a]).id < bound by {
                if a < i {
                    assert(seen[a].id < bound);
                }
            }
        }
        i += 1;
    }
    proof {
        assert(list.take(i as int) =~= list);
    }
    true
}

/// `id` comes after the cursor. Without a cursor every number does.
pub open spec fn after_number(start_after: Option<u64>, id: u64) -> bool {
    match start_after {
        Some(cursor) => cursor < id,
        None => true,
    }
}

/// A page of a list: the numbers of the first `limit` questions after the
/// cursor, or of all of them where they are fewer.
pub open spec fn numbers_page(questions: Seq<QuestionView>, start_after: Option<u64>, limit: nat)
    -> Seq<u64> {
    let eligible = questions.filter(|q: QuestionView| after_number(start_after, q.id));
    let count: int = if limit <= eligible.len() {
        limit as int
    } else {
        eligible.len() as int
    };
    eligible.take(count).map_values(|q: QuestionView| q.id)
}

/// The numbers of up to `limit` questions of the list that come after
/// `start_after`.
fn range_numbers(questions: &Vec<Question>, start_after: Option<u64>, limit: usize) -> (page: Vec<
    u64,
>)
    ensures
        page@ == numbers_page(questions_view(questions@), start_after, limit as nat),
{
    let ghost list = questions_view(questions@);
    let ghost pred = |q: QuestionView| after_number(start_after, q.id);
    let ghost number = |q: QuestionView| q.id;
    let mut page: Vec<u64> = Vec::new();
    let mut i: usize = 0;
    proof {
        assert(list.take(0) =~= Seq::<QuestionView>::empty());
        reveal(Seq::filter);
        assert(page@ =~= list.take(0).filter(pred).map_values(number));
    }
    while i < questions.len() && page.len() < limit
        invariant
            list == questions_view(questions@),
            pred == (|q: QuestionView| after_number(start_after, q.id)),
            number == (|q: QuestionView| q.id),
            i <= list.len(),
            page@.len() <= limit,
            page@.len() == list.take(i as int).filter(pred).len(),
            page@ == list.take(i as int).filter(pred).map_values(number),
        decreases list.len() - i,
    {
        let comes_after: bool = match start_after {
            Some(cursor) => cursor < questions[i].id,
            None => true,
        };
        proof {
            assert(list.take(i + 1) =~= list.take(i as int).push(list[i as int]));
            list.take(i as int).lemma_filter_push(list[i as int], pred);
            assert(comes_after == pred(list[i as int]));
        }
        if comes_after {
            let ghost earlier = page@;
            page.push(questions[i].id);
            proof {
                assert(page@ =~= earlier.push(list[i as int].id));
                assert(list.take(i as int).filter(pred).push(list[i as int]).map_values(number)
                    =~= list.take(i as int).filter(pred).map_values(number).push(
                    list[i as int].id,
                ));
            }
        }
        i += 1;
    }
    proof {
        let seen = list.take(i as int).filter(pred);
        let all = list.filter(pred);
        assert(list =~= list.take(i as int) + list.skip(i as int));
        Seq::filter_distributes_over_add(list.take(i as int), list.skip(i as int), pred);
        assert(all == seen + list.skip(i as int).filter(pred));
        if i == list.len() {
            assert(list.skip(i as int) =~= Seq::<QuestionView>::empty());
            reveal(Seq::filter);
            assert(all =~= seen);
            assert(all.take(all.len() as int) =~= all);
        } else {
            assert(seen.len() == limit);
            assert(all.take(limit as int) =~= seen);
        }
    }
    page
}

/// The book of questions. Asking and answering are the only ways in which it
/// changes.
#[derive(Debug)]
pub struct QuestionBook {
    next_question_id: u64,
    unanswered: Vec<Question>,
    answered: Vec<Question>,
}

/// What a `QuestionBook` stands for.
pub struct QuestionBookView {
    /// The number that the next question gets: as many were asked so far.
    pub next_question_id: u64,
    /// The open questions, in ascending order of number.
    pub unanswered: Seq<QuestionView>,
    /// The answered questions, in ascending order of number.
    pub answered: Seq<QuestionView>,
}

impl QuestionBookView {
    /// The book is in order: both lists rise by number, and every number in
    /// them was given out already.
    pub open spec fn well_formed(self) -> bool {
        &&& numbered_ascending(self.unanswered)
        &&& numbered_ascending(self.answered)
        &&& numbered_below(self.unanswered, self.next_question_id)
        &&& numbered_below(self.answered, self.next_question_id)
    }
}

impl View for QuestionBook {
    type V = QuestionBookView;

    closed spec fn view(&self) -> QuestionBookView {
        QuestionBookView {
            next_question_id: self.next_question_id,
            unanswered: questions_view(self.unanswered@),
            answered: questions_view(self.answered@),
        }
    }
}

impl QuestionBook {
    /// A book without questions. The first question gets the number zero.
    pub fn new() -> (book: QuestionBook)
        ensures
            book@.next_question_id == 0,
            book@.unanswered == Seq::<QuestionView>::empty(),
            book@.answered == Seq::<QuestionView>::empty(),
            book@.well_formed(),
    {
        let book = QuestionBook {
            next_question_id: 0,
            unanswered: Vec::new(),
            answered: Vec::new(),
        };
        proof {
            assert(book@.unanswered =~= Seq::<QuestionView>::empty());
            assert(book@.answered =~= Seq::<QuestionView>::empty());
        }
        book
    }

    /// A book with the given next number and lists, if they are in order:
    /// both lists rise by number, and every number in them is below the
    /// next one.
    pub fn restore(next_question_id: u64, unanswered: Vec<Question>, answered: Vec<Question>) -> (restored:
        Option<QuestionBook>)
        ensures
            match restored {
                Some(book) => {
                    &&& book@.next_question_id == next_question_id
                    &&& book@.unanswered == questions_view(unanswered@)
                    &&& book@.answered == questions_view(answered@)
                    &&& book@.well_formed()
                },
                None => !(QuestionBookView {
                    next_question_id,
                    unanswered: questions_view(unanswered@),
                    answered: questions_view(answered@),
                }).well_formed(),
            },
    {
        if in_order_below(&unanswered, next_question_id) && in_order_below(
            &answered,
            next_question_id,
        ) {
            Some(QuestionBook { next_question_id, unanswered, answered })
        } else {
            None
        }
    }

    /// The number that the next question gets.
    pub fn load_next_question_id(&self) -> (id: u64)
        ensures
            id == self@.next_question_id,
    {
        self.next_question_id
    }

    /// The open question with the number `id`, if there is one.
    pub fn may_load_unanswered(&self, id: u64) -> (found: Option<Question>)
        requires
            self@.well_formed(),
        ensures
            match found {
                Some(question) => question_in(self@.unanswered, id) == Some(question@),
                None => question_in(self@.unanswered, id) is None,
            },
    {
        find_question(&self.unanswered, id)
    }

    /// The answered question with the number `id`, if there is one.
    pub fn may_load_answered(&self, id: u64) -> (found: Option<Question>)
        requires
            self@.well_formed(),
        ensures
            match found {
                Some(question) => question_in(self@.answered, id) == Some(question@),
                None => question_in(self@.answered, id) is None,
            },
    {
        find_question(&self.answered, id)
    }

    /// The numbers of up to `limit` open questions after `start_after`.
    pub fn range_unanswered(&self, start_after: Option<u64>, limit: usize) -> (page: Vec<u64>)
        ensures
            page@ == numbers_page(self@.unanswered, start_after, limit as nat),
    {
        range_numbers(&self.unanswered, start_after, limit)
    }

    /// The numbers of up to `limit` answered questions after `start_after`.
    pub fn range_answered(&self, start_after: Option<u64>, limit: usize) -> (page: Vec<u64>)
        ensures
            page@ == numbers_page(self@.answered, start_after, limit as nat),
    {
        range_numbers(&self.answered, start_after, limit)
    }

    /// Enters `question` as open under the next number, which it must bear,
    /// and moves on to the number after it.
    pub(crate) fn enter(&mut self, question: Question)
        requires
            old(self)@.well_formed(),
            question.id == old(self)@.next_question_id,
            old(self)@.next_question_id < u64::MAX,
        ensures
            final(self)@.well_formed(),
            final(self)@.next_question_id == old(self)@.next_question_id + 1,
            final(self)@.answered == old(self)@.answered,
            forall|id: u64|
                #[trigger] question_in(final(self)@.unanswered, id) == (if id == question.id {
                    Some(question@)
                } else {
                    question_in(old(self)@.unanswered, id)
                }),
    {
        let ghost before = self@;
        save_question(&mut self.unanswered, question);
        self.next_question_id = self.next_question_id + 1;
        proof {
            let bound: u64 = (before.next_question_id + 1) as u64;
            assert(numbered_below(before.unanswered, bound)) by {
                assert forall|i: int| 0 <= i < before.unanswered.len() implies (
                #[trigger] before.unanswered[i]).id < bound by {}
            }
            assert(numbered_below(before.answered, bound)) by {
                assert forall|i: int| 0 <= i < before.answered.len() implies (
                #[trigger] before.answered[i]).id < bound by {}
            }
            assert(numbered_below(self@.unanswered, bound));
        }
    }

    /// Moves the open question with the number of `question` to the answered
    /// ones, as `question`.
    pub(crate) fn settle(&mut self, question: Question)
        requires
            old(self)@.well_formed(),
            is_numbered(old(self)@.unanswered, question.id),
        ensures
            final(self)@.well_formed(),
            final(self)@.next_question_id == old(self)@.next_question_id,
            forall|id: u64|
                #[trigger] question_in(final(self)@.unanswered, id) == (if id == question.id {
                    None
                } else {
                    question_in(old(self)@.unanswered, id)
                }),
            forall|id: u64|
                #[trigger] question_in(final(self)@.answered, id) == (if id == question.id {
                    Some(question@)
                } else {
                    question_in(old(self)@.answered, id)
                }),
    {
        let ghost before = self@;
        proof {
            let k: int = choose|k: int| numbered_at(before.unanswered, question.id, k);
            assert(before.unanswered[k].id < before.next_question_id);
        }
        remove_question(&mut self.unanswered, question.id);
        save_question(&mut self.answered, question);
        proof {
            assert(numbered_below(self@.unanswered, before.next_question_id));
            assert(numbered_below(self@.answered, before.next_question_id));
        }
    }
}

} // verus!
