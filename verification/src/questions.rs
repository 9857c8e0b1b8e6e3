//! Quiz-session engine.
//!
//! [`QuizHandler`] holds an in-memory question bank, keyed by
//! category name, and a live registry of issued question instances.
//! [`QuizHandler::get_from_category`] draws one question of a
//! category at random and binds it to an account as a fresh
//! [`QuestionInstance`]; [`QuizHandler::answer`] scores and consumes
//! that instance, which is strictly single-use.

use vstd::prelude::*;

use crate::errors::QuestError;
use crate::ids::fresh_id;
use crate::rng::random_below;

verus! {

/// A multiple-choice question: its text, an ordered list of at least
/// two answer variants, and the index of the correct variant.
#[derive(Debug, Clone, PartialEq, Eq)]
pub struct SingleAnswerQuestion {
    pub question: String,
    pub variants: Vec<String>,
    pub correct_answer: u8,
}

/// Mathematical image of a [`SingleAnswerQuestion`].
#[verifier::ext_equal]
pub struct QuestionView {
    pub question: Seq<char>,
    pub variants: Seq<Seq<char>>,
    pub correct_answer: u8,
}

/// The views of a sequence of strings.
pub open spec fn strings_view(s: Seq<String>) -> Seq<Seq<char>> {
    Seq::new(s.len(), |i: int| s[i]@)
}

impl View for SingleAnswerQuestion {
    type V = QuestionView;

    open spec fn view(&self) -> QuestionView {
        QuestionView {
            question: self.question@,
            variants: strings_view(self.variants@),
            correct_answer: self.correct_answer,
        }
    }
}

/// A named question category of the bank.
#[derive(Debug, Clone)]
pub struct Category {
    pub name: String,
    pub questions: Vec<SingleAnswerQuestion>,
}

/// Mathematical image of a [`Category`].
#[verifier::ext_equal]
pub struct CategoryView {
    pub name: Seq<char>,
    pub questions: Seq<QuestionView>,
}

/// The views of a sequence of questions.
pub open spec fn questions_view(s: Seq<SingleAnswerQuestion>) -> Seq<QuestionView> {
    Seq::new(s.len(), |i: int| s[i]@)
}

impl View for Category {
    type V = CategoryView;

    open spec fn view(&self) -> CategoryView {
        CategoryView { name: self.name@, questions: questions_view(self.questions@) }
    }
}

/// The views of a sequence of categories.
pub open spec fn bank_view(s: Seq<Category>) -> Seq<CategoryView> {
    Seq::new(s.len(), |i: int| s[i]@)
}

/// An ephemeral binding of one chosen question to one account, valid
/// until answered once.
#[derive(Debug, Clone, PartialEq, Eq)]
pub struct QuestionInstance {
    /// Opaque unique instance identifier.
    pub id: u128,
    /// Account the instance is bound to.
    pub bound_to: u128,
    /// The full question, answer key included. This shape is for the
    /// registry and for scoring only; what crosses the system
    /// boundary is the stripped [`QuestionChallenge`].
    pub question: SingleAnswerQuestion,
}

/// Mathematical image of a [`QuestionInstance`].
#[verifier::ext_equal]
pub struct InstanceView {
    pub id: u128,
    pub bound_to: u128,
    pub question: QuestionView,
}

impl View for QuestionInstance {
    type V = InstanceView;

    open spec fn view(&self) -> InstanceView {
        InstanceView { id: self.id, bound_to: self.bound_to, question: self.question@ }
    }
}

/// The views of a sequence of instances.
pub open spec fn instances_view(s: Seq<QuestionInstance>) -> Seq<InstanceView> {
    Seq::new(s.len(), |i: int| s[i]@)
}

/// The projection of a question instance that may cross the system
/// boundary: the correct-answer index is stripped.
#[derive(Debug, Clone, PartialEq, Eq)]
pub struct QuestionChallenge {
    pub id: u128,
    pub bound_to: u128,
    pub question: String,
    pub variants: Vec<String>,
}

impl QuestionInstance {
    /// The instance as exposed to clients, with the answer key
    /// removed.
    pub fn challenge(&self) -> (r: QuestionChallenge)
        ensures
            r.id == self.id,
            r.bound_to == self.bound_to,
            r.question@ == self@.question.question,
            strings_view(r.variants@) == self@.question.variants,
    {
        let variants = clone_strings(&self.question.variants);
        QuestionChallenge {
            id: self.id,
            bound_to: self.bound_to,
            question: self.question.question.clone(),
            variants,
        }
    }
}

/// Copy a vector of strings; the result reads back the same
/// sequence of characters per entry.
fn clone_strings(v: &Vec<String>) -> (r: Vec<String>)
    ensures
        strings_view(r@) == strings_view(v@),
{
    let n = v.len();
    let mut r: Vec<String> = Vec::new();
    let mut i: usize = 0;
    while i < n
        invariant
            n == v@.len(),
            0 <= i <= n,
            r@.len() == i,
            forall|j: int| 0 <= j < i ==> #[trigger] r@[j]@ == v@[j]@,
        decreases n - i,
    {
        r.push(v[i].clone());
        i = i + 1;
    }
    proof {
        assert(strings_view(r@) =~= strings_view(v@));
    }
    r
}

/// Copy a question; the result has the same view.
fn clone_question(q: &SingleAnswerQuestion) -> (r: SingleAnswerQuestion)
    ensures
        r@ == q@,
{
    let r = SingleAnswerQuestion {
        question: q.question.clone(),
        variants: clone_strings(&q.variants),
        correct_answer: q.correct_answer,
    };
    proof {
        assert(r@ =~= q@);
    }
    r
}

/// Well-formedness of one question: at least two variants, and the
/// answer key indexes into them.
pub open spec fn question_wf(q: QuestionView) -> bool {
    2 <= q.variants.len() && (q.correct_answer as int) < q.variants.len()
}

/// Well-formedness of one category: every question is well formed.
pub open spec fn category_wf(c: CategoryView) -> bool {
    forall|k: int| 0 <= k < c.questions.len() ==> question_wf(#[trigger] c.questions[k])
}

/// Well-formedness of the bank: category names are unique and every
/// category is well formed.
pub open spec fn bank_wf(cats: Seq<CategoryView>) -> bool {
    &&& forall|i: int| 0 <= i < cats.len() ==> category_wf(#[trigger] cats[i])
    &&& forall|i: int, j: int|
        0 <= i < cats.len() && 0 <= j < cats.len() && i != j ==> (#[trigger] cats[i].name) != (
        #[trigger] cats[j].name)
}

/// Whether the bank holds a category of this name.
pub open spec fn bank_has_category(cats: Seq<CategoryView>, name: Seq<char>) -> bool {
    exists|i: int| 0 <= i < cats.len() && (#[trigger] cats[i].name) == name
}

/// Index of the category of this name (meaningful when
/// [`bank_has_category`] holds; unique when names are unique).
pub open spec fn category_at(cats: Seq<CategoryView>, name: Seq<char>) -> int {
    choose|i: int| 0 <= i < cats.len() && (#[trigger] cats[i].name) == name
}

/// The question list of the category of this name.
pub open spec fn category_questions(cats: Seq<CategoryView>, name: Seq<char>) -> Seq<QuestionView> {
    cats[category_at(cats, name)].questions
}

/// Under unique names, the category index of a name is the index of
/// any category carrying it.
pub proof fn lemma_category_at_unique(cats: Seq<CategoryView>, name: Seq<char>, i: int)
    requires
        bank_wf(cats),
        0 <= i < cats.len(),
        cats[i].name == name,
    ensures
        category_at(cats, name) == i,
{
    assert(bank_has_category(cats, name));
    let c = category_at(cats, name);
    assert(0 <= c < cats.len() && cats[c].name == name);
    if c != i {
        assert(cats[c].name != cats[i].name);
    }
}

/// Whether the registry holds an instance with this id.
pub open spec fn has_instance(insts: Seq<InstanceView>, id: u128) -> bool {
    exists|i: int| 0 <= i < insts.len() && (#[trigger] insts[i].id) == id
}

/// Instance ids are pairwise distinct.
pub open spec fn instances_wf(insts: Seq<InstanceView>) -> bool {
    forall|i: int, j: int|
        0 <= i < insts.len() && 0 <= j < insts.len() && i != j ==> (#[trigger] insts[i].id) != (
        #[trigger] insts[j].id)
}

/// Consume-once: under unique instance ids, removing the instance
/// at `i` leaves no instance with its id, so a second answer with
/// the same id is rejected as not found.
pub proof fn lemma_answer_consumes(insts: Seq<InstanceView>, i: int, id: u128)
    requires
        instances_wf(insts),
        0 <= i < insts.len(),
        insts[i].id == id,
    ensures
        !has_instance(insts.remove(i), id),
{
    let rest = insts.remove(i);
    assert forall|j: int| 0 <= j < rest.len() implies rest[j].id != id by {
        if j < i {
            assert(rest[j] == insts[j]);
            assert(insts[j].id != insts[i].id);
        } else {
            assert(rest[j] == insts[j + 1]);
            assert(insts[j + 1].id != insts[i].id);
        }
    }
}

/// Pushing an instance with a fresh id preserves uniqueness.
proof fn lemma_instances_wf_push(insts: Seq<InstanceView>, inst: InstanceView)
    requires
        instances_wf(insts),
        !has_instance(insts, inst.id),
    ensures
        instances_wf(insts.push(inst)),
{
    let s = insts.push(inst);
    assert forall|i: int, j: int|
        0 <= i < s.len() && 0 <= j < s.len() && i != j implies s[i].id != s[j].id by {
        if i < insts.len() {
            assert(s[i] == insts[i]);
        } else {
            assert(s[i] == inst);
        }
        if j < insts.len() {
            assert(s[j] == insts[j]);
        } else {
            assert(s[j] == inst);
        }
    }
}

/// Removing an instance preserves uniqueness.
proof fn lemma_instances_wf_remove(insts: Seq<InstanceView>, i: int)
    requires
        instances_wf(insts),
        0 <= i < insts.len(),
    ensures
        instances_wf(insts.remove(i)),
{
    let s = insts.remove(i);
    assert forall|a: int, b: int|
        0 <= a < s.len() && 0 <= b < s.len() && a != b implies s[a].id != s[b].id by {
        let a0: int = if a < i { a } else { a + 1 };
        let b0: int = if b < i { b } else { b + 1 };
        assert(s[a] == insts[a0] && s[b] == insts[b0]);
        assert(insts[a0].id != insts[b0].id);
    }
}

/// The quiz-session manager: an immutable question bank and the live
/// registry of issued, not-yet-answered question instances.
pub struct QuizHandler {
    categories: Vec<Category>,
    instances: Vec<QuestionInstance>,
}

impl QuizHandler {
    /// The bank's categories, as views.
    pub closed spec fn spec_categories(&self) -> Seq<CategoryView> {
        bank_view(self.categories@)
    }

    /// The live registry, as views.
    pub closed spec fn spec_instances(&self) -> Seq<InstanceView> {
        instances_view(self.instances@)
    }

    /// The manager's invariants hold: the bank is well formed, and
    /// registered instances have unique ids and well-formed
    /// questions.
    pub open spec fn wf(&self) -> bool {
        &&& bank_wf(self.spec_categories())
        &&& instances_wf(self.spec_instances())
    }

    /// Build a manager over a loaded question bank.
    ///
    /// Rejects a malformed bank with `InvalidInput`: a duplicate
    /// category name, a question with fewer than two variants, or a
    /// correct-answer index outside the variants. Otherwise starts
    /// with an empty instance registry.
    pub fn new(categories: Vec<Category>) -> (r: Result<QuizHandler, QuestError>)
        ensures
            r is Ok <==> bank_wf(bank_view(categories@)),
            r matches Ok(h) ==> h.wf() && h.spec_categories() == bank_view(categories@)
                && h.spec_instances() =~= Seq::<InstanceView>::empty(),
            r is Err ==> r == Err::<QuizHandler, QuestError>(QuestError::InvalidInput),
    {
        if !check_bank(&categories) {
            return Err(QuestError::InvalidInput);
        }
        let h = QuizHandler { categories, instances: Vec::new() };
        proof {
            assert(h.spec_instances() =~= Seq::<InstanceView>::empty());
        }
        Ok(h)
    }
}

impl QuizHandler {
    /// Index of the category named `category`, when one exists.
    fn find_category(&self, category: &String) -> (r: Option<usize>)
        ensures
            r matches Some(i) ==> i < self.spec_categories().len() && self.spec_categories()[
                i as int].name == category@,
            r is None ==> !bank_has_category(self.spec_categories(), category@),
    {
        let n = self.categories.len();
        let mut i: usize = 0;
        while i < n
            invariant
                n == self.spec_categories().len(),
                0 <= i <= n,
                forall|j: int|
                    0 <= j < i ==> (#[trigger] self.spec_categories()[j].name) != category@,
            decreases n - i,
        {
            if self.categories[i].name == *category {
                return Some(i);
            }
            i = i + 1;
        }
        None
    }

    /// Index of the registered instance with this id, when one
    /// exists.
    fn find_instance(&self, id: u128) -> (r: Option<usize>)
        ensures
            r matches Some(i) ==> i < self.spec_instances().len() && self.spec_instances()[
                i as int].id == id,
            r is None ==> !has_instance(self.spec_instances(), id),
    {
        let n = self.instances.len();
        let mut i: usize = 0;
        while i < n
            invariant
                n == self.spec_instances().len(),
                0 <= i <= n,
                forall|j: int| 0 <= j < i ==> (#[trigger] self.spec_instances()[j].id) != id,
            decreases n - i,
        {
            if self.instances[i].id == id {
                return Some(i);
            }
            i = i + 1;
        }
        None
    }

    /// The discoverable category names, in bank order.
    pub fn get_all_categories(&self) -> (r: Vec<String>)
        ensures
            r@.len() == self.spec_categories().len(),
            forall|i: int|
                0 <= i < r@.len() ==> (#[trigger] r@[i]@) == self.spec_categories()[i].name,
    {
        let n = self.categories.len();
        let mut out: Vec<String> = Vec::new();
        let mut i: usize = 0;
        while i < n
            invariant
                n == self.spec_categories().len(),
                0 <= i <= n,
                out@.len() == i,
                forall|j: int|
                    0 <= j < i ==> (#[trigger] out@[j]@) == self.spec_categories()[j].name,
            decreases n - i,
        {
            out.push(self.categories[i].name.clone());
            i = i + 1;
        }
        out
    }

    /// All questions of one category.
    ///
    /// Fails with `NotFound` if and only if no category carries this
    /// name; otherwise returns exactly that category's question
    /// list.
    pub fn get_all_from_category(&self, category: &String) -> (r: Result<
        Vec<SingleAnswerQuestion>,
        QuestError,
    >)
        requires
            self.wf(),
        ensures
            r is Ok <==> bank_has_category(self.spec_categories(), category@),
            r matches Ok(qs) ==> questions_view(qs@) == category_questions(
                self.spec_categories(),
                category@,
            ),
            r is Err ==> r == Err::<Vec<SingleAnswerQuestion>, QuestError>(QuestError::NotFound),
    {
        let ci = match self.find_category(category) {
            Some(ci) => ci,
            None => { return Err(QuestError::NotFound) },
        };
        proof {
            lemma_category_at_unique(self.spec_categories(), category@, ci as int);
        }
        let bank = &self.categories[ci].questions;
        let n = bank.len();
        let mut out: Vec<SingleAnswerQuestion> = Vec::new();
        let mut i: usize = 0;
        while i < n
            invariant
                0 <= ci < self.spec_categories().len(),
                *bank == self.categories@[ci as int].questions,
                n == bank@.len(),
                0 <= i <= n,
                out@.len() == i,
                forall|j: int| 0 <= j < i ==> (#[trigger] out@[j]@) == bank@[j]@,
            decreases n - i,
        {
            out.push(clone_question(&bank[i]));
            i = i + 1;
        }
        proof {
            assert(questions_view(out@) =~= category_questions(self.spec_categories(), category@));
        }
        Ok(out)
    }

    /// Issue a question challenge for `user` from `category`.
    ///
    /// Fails with `NotFound` if and only if the category does not
    /// exist, and with `EmptyCategory` if and only if it exists and
    /// holds no questions; in both cases the registry is unchanged.
    /// Otherwise one of the category's questions is drawn at random —
    /// each call is an independent draw — and recorded in the
    /// registry under a fresh instance id, bound to `user`; exactly
    /// the returned instance is recorded.
    pub fn get_from_category(&mut self, user: u128, category: &String) -> (r: Result<
        QuestionInstance,
        QuestError,
    >)
        requires
            old(self).wf(),
        ensures
            final(self).wf(),
            final(self).spec_categories() == old(self).spec_categories(),
            !bank_has_category(old(self).spec_categories(), category@) ==> r == Err::<
                QuestionInstance,
                QuestError,
            >(QuestError::NotFound) && final(self).spec_instances() == old(self).spec_instances(),
            bank_has_category(old(self).spec_categories(), category@) && category_questions(
                old(self).spec_categories(),
                category@,
            ).len() == 0 ==> r == Err::<QuestionInstance, QuestError>(QuestError::EmptyCategory)
                && final(self).spec_instances() == old(self).spec_instances(),
            bank_has_category(old(self).spec_categories(), category@) && category_questions(
                old(self).spec_categories(),
                category@,
            ).len() > 0 ==> r is Ok,
            r matches Ok(inst) ==> inst@.bound_to == user,
            r matches Ok(inst) ==> exists|k: int|
                0 <= k < category_questions(old(self).spec_categories(), category@).len()
                    && inst@.question == (#[trigger] category_questions(
                    old(self).spec_categories(),
                    category@,
                )[k]),
            r matches Ok(inst) ==> has_instance(final(self).spec_instances(), inst@.id),
            r matches Ok(inst) ==> (!has_instance(old(self).spec_instances(), inst@.id)
                ==> final(self).spec_instances() == old(self).spec_instances().push(inst@)),
            r matches Ok(inst) ==> (has_instance(old(self).spec_instances(), inst@.id)
                ==> exists|j: int|
                0 <= j < old(self).spec_instances().len()
                    && (#[trigger] old(self).spec_instances()[j].id) == inst@.id
                    && final(self).spec_instances() == old(self).spec_instances().remove(j).push(
                    inst@,
                )),
    {
        let ci = match self.find_category(category) {
            Some(ci) => ci,
            None => { return Err(QuestError::NotFound) },
        };
        proof {
            lemma_category_at_unique(self.spec_categories(), category@, ci as int);
        }
        let qn = self.categories[ci].questions.len();
        if qn == 0 {
            return Err(QuestError::EmptyCategory);
        }
        let k = random_below(qn);
        let q = clone_question(&self.categories[ci].questions[k]);
        let id = fresh_id();
        proof {
            assert(q@ == category_questions(self.spec_categories(), category@)[k as int]);
        }
        let ghost pre = self.spec_instances();
        match self.find_instance(id) {
            Some(j) => {
                proof {
                    lemma_answer_consumes(self.spec_instances(), j as int, id);
                    lemma_instances_wf_remove(self.spec_instances(), j as int);
                    lemma_instances_view_remove(self.instances@, j as int);
                }
                self.instances.remove(j);
            },
            None => {},
        }
        let inst = QuestionInstance { id, bound_to: user, question: q };
        proof {
            lemma_instances_wf_push(self.spec_instances(), inst@);
            lemma_instances_view_push(self.instances@, inst);
        }
        self.instances.push(inst);
        proof {
            assert(self.spec_instances()[self.spec_instances().len() - 1].id == id);
            assert(has_instance(self.spec_instances(), id));
        }
        let q2 = clone_question(&self.categories[ci].questions[k]);
        Ok(QuestionInstance { id, bound_to: user, question: q2 })
    }

    /// Score and consume the instance keyed by `question_id`.
    ///
    /// Atomically removes the instance from the registry: if it is
    /// absent — never issued, or already answered — the result is
    /// `NotFound` and the registry is unchanged. Otherwise the
    /// verdict compares the submitted index with the stored answer
    /// key, the answer key is returned alongside it, and the
    /// instance is discarded permanently, so a second answer with
    /// the same id fails `NotFound`.
    pub fn answer(&mut self, question_id: u128, answer: u8) -> (r: Result<(bool, u8), QuestError>)
        requires
            old(self).wf(),
        ensures
            final(self).wf(),
            final(self).spec_categories() == old(self).spec_categories(),
            !has_instance(old(self).spec_instances(), question_id) ==> r == Err::<
                (bool, u8),
                QuestError,
            >(QuestError::NotFound) && final(self).spec_instances() == old(self).spec_instances(),
            has_instance(old(self).spec_instances(), question_id) ==> r is Ok,
            r matches Ok(v) ==> exists|i: int|
                0 <= i < old(self).spec_instances().len() && (#[trigger] old(
                    self,
                ).spec_instances()[i].id) == question_id && v.0 == (old(self).spec_instances()[
                    i
                ].question.correct_answer == answer) && v.1 == old(self).spec_instances()[
                    i
                ].question.correct_answer && final(self).spec_instances() == old(
                    self,
                ).spec_instances().remove(i),
            r is Ok ==> !has_instance(final(self).spec_instances(), question_id),
    {
        match self.find_instance(question_id) {
            None => Err(QuestError::NotFound),
            Some(i) => {
                proof {
                    lemma_answer_consumes(self.spec_instances(), i as int, question_id);
                    lemma_instances_wf_remove(self.spec_instances(), i as int);
                    lemma_instances_view_remove(self.instances@, i as int);
                }
                let inst = self.instances.remove(i);
                Ok((inst.question.correct_answer == answer, inst.question.correct_answer))
            },
        }
    }
}

/// Removing an element commutes with taking views.
proof fn lemma_instances_view_remove(s: Seq<QuestionInstance>, i: int)
    requires
        0 <= i < s.len(),
    ensures
        instances_view(s.remove(i)) =~= instances_view(s).remove(i),
{
}

/// Pushing an element commutes with taking views.
proof fn lemma_instances_view_push(s: Seq<QuestionInstance>, x: QuestionInstance)
    ensures
        instances_view(s.push(x)) =~= instances_view(s).push(x@),
{
}

/// Exec check of [`bank_wf`] over a loaded bank.
fn check_bank(categories: &Vec<Category>) -> (r: bool)
    ensures
        r == bank_wf(bank_view(categories@)),
{
    let n = categories.len();
    let mut i: usize = 0;
    while i < n
        invariant
            n == categories@.len(),
            0 <= i <= n,
            forall|a: int| 0 <= a < i ==> category_wf(#[trigger] bank_view(categories@)[a]),
            forall|a: int, b: int|
                0 <= a < i && 0 <= b < i && a != b ==> (#[trigger] bank_view(categories@)[a].name)
                    != (#[trigger] bank_view(categories@)[b].name),
        decreases n - i,
    {
        let cat = &categories[i];
        // every question of this category must be well formed
        let qn = cat.questions.len();
        let mut k: usize = 0;
        while k < qn
            invariant
                n == categories@.len(),
                0 <= i < n,
                *cat == categories@[i as int],
                qn == cat.questions@.len(),
                0 <= k <= qn,
                forall|a: int| 0 <= a < k ==> question_wf(#[trigger] cat@.questions[a]),
            decreases qn - k,
        {
            let q = &cat.questions[k];
            if q.variants.len() < 2 || (q.correct_answer as usize) >= q.variants.len() {
                proof {
                    assert(!question_wf(cat@.questions[k as int]));
                    assert(bank_view(categories@)[i as int] == cat@);
                    assert(!category_wf(bank_view(categories@)[i as int]));
                }
                return false;
            }
            k = k + 1;
        }
        // the name must differ from every earlier category's name
        let mut j: usize = 0;
        while j < i
            invariant
                0 <= j <= i < n,
                n == categories@.len(),
                forall|a: int|
                    0 <= a < j ==> (#[trigger] bank_view(categories@)[a].name) != categories@[
                        i as int]@.name,
            decreases i - j,
        {
            if categories[j].name == categories[i].name {
                proof {
                    assert(bank_view(categories@)[j as int].name == bank_view(categories@)[
                        i as int].name);
                    assert(!bank_wf(bank_view(categories@)));
                }
                return false;
            }
            j = j + 1;
        }
        i = i + 1;
    }
    true
}

} // verus!
