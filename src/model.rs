use vstd::prelude::*;

verus! {

/// Identity of a user, as the hexadecimal text of its database id.
pub struct UserId(pub String);

/// Identity of one joined connection within a room.
pub struct ConnId(pub String);

impl View for UserId {
    type V = Seq<char>;

    open spec fn view(&self) -> Seq<char> {
        self.0@
    }
}

impl View for ConnId {
    type V = Seq<char>;

    open spec fn view(&self) -> Seq<char> {
        self.0@
    }
}

impl Clone for UserId {
    fn clone(&self) -> (r: Self)
        ensures
            r == *self,
    {
        UserId(self.0.clone())
    }
}

impl Clone for ConnId {
    fn clone(&self) -> (r: Self)
        ensures
            r == *self,
    {
        ConnId(self.0.clone())
    }
}

/// A registered user, as far as rooms read it.
pub struct User {
    pub id: UserId,
    pub email: String,
    pub name: String,
    pub image: String,
}

/// What other members may see of a user.
pub struct PublicUser {
    pub id: UserId,
    pub name: String,
    pub image: String,
}

/// The public projection of a user.
pub open spec fn public_of(u: User) -> PublicUser {
    PublicUser { id: u.id, name: u.name, image: u.image }
}

impl Clone for User {
    fn clone(&self) -> (r: Self)
        ensures
            r == *self,
    {
        User {
            id: self.id.clone(),
            email: self.email.clone(),
            name: self.name.clone(),
            image: self.image.clone(),
        }
    }
}

impl Clone for PublicUser {
    fn clone(&self) -> (r: Self)
        ensures
            r == *self,
    {
        PublicUser { id: self.id.clone(), name: self.name.clone(), image: self.image.clone() }
    }
}

impl User {
    pub fn to_public(&self) -> (r: PublicUser)
        ensures
            r == public_of(*self),
    {
        PublicUser { id: self.id.clone(), name: self.name.clone(), image: self.image.clone() }
    }
}

/// One test of a problem: `input` is the JSON text of the argument array,
/// `output` the JSON text of the expected return value.
pub struct TestCase {
    pub input: String,
    pub output: String,
}

impl Clone for TestCase {
    fn clone(&self) -> (r: Self)
        ensures
            r == *self,
    {
        TestCase { input: self.input.clone(), output: self.output.clone() }
    }
}

/// Starting code of a problem, per language.
pub struct Code {
    pub python: String,
    pub javascript: String,
}

impl Clone for Code {
    fn clone(&self) -> (r: Self)
        ensures
            r == *self,
    {
        Code { python: self.python.clone(), javascript: self.javascript.clone() }
    }
}

/// A problem with all of its test cases.
pub struct Problem {
    pub id: String,
    pub title: String,
    pub author: PublicUser,
    pub description: String,
    pub boilerplate_code: Code,
    pub test_cases: Vec<TestCase>,
    pub difficulty: u8,
}

/// A problem as members see it during a round: only the default test cases.
pub struct PublicProblem {
    pub id: String,
    pub title: String,
    pub author: PublicUser,
    pub description: String,
    pub boilerplate_code: Code,
    pub default_test_cases: Vec<TestCase>,
    pub difficulty: u8,
}

/// How many test cases are shown before a submission.
pub const DEFAULT_TEST_CASES: usize = 3;

/// The test cases shown before a submission: the first three, or all if fewer.
pub open spec fn default_cases(cases: Seq<TestCase>) -> Seq<TestCase> {
    if cases.len() <= DEFAULT_TEST_CASES {
        cases
    } else {
        cases.take(DEFAULT_TEST_CASES as int)
    }
}

/// `pp` is the public projection of `p`.
pub open spec fn is_public_problem(pp: PublicProblem, p: Problem) -> bool {
    &&& pp.id == p.id
    &&& pp.title == p.title
    &&& pp.author == p.author
    &&& pp.description == p.description
    &&& pp.boilerplate_code == p.boilerplate_code
    &&& pp.default_test_cases@ == default_cases(p.test_cases@)
    &&& pp.difficulty == p.difficulty
}

/// Copies the first `n` test cases.
pub fn copy_cases(cases: &Vec<TestCase>, n: usize) -> (r: Vec<TestCase>)
    requires
        n <= cases@.len(),
    ensures
        r@ == cases@.take(n as int),
{
    let mut r: Vec<TestCase> = Vec::new();
    let mut i: usize = 0;
    while i < n
        invariant
            i <= n,
            n <= cases@.len(),
            r@ == cases@.take(i as int),
        decreases n - i,
    {
        r.push(cases[i].clone());
        i = i + 1;
        assert(r@ =~= cases@.take(i as int));
    }
    r
}

impl Problem {
    pub fn to_public(&self) -> (r: PublicProblem)
        ensures
            is_public_problem(r, *self),
    {
        let n = if self.test_cases.len() <= DEFAULT_TEST_CASES {
            self.test_cases.len()
        } else {
            DEFAULT_TEST_CASES
        };
        let cases = copy_cases(&self.test_cases, n);
        assert(self.test_cases@.len() <= DEFAULT_TEST_CASES ==> self.test_cases@.take(n as int)
            =~= self.test_cases@);
        PublicProblem {
            id: self.id.clone(),
            title: self.title.clone(),
            author: self.author.clone(),
            description: self.description.clone(),
            boilerplate_code: self.boilerplate_code.clone(),
            default_test_cases: cases,
            difficulty: self.difficulty,
        }
    }

    pub fn copy(&self) -> (r: Problem)
        ensures
            r.id == self.id,
            r.title == self.title,
            r.author == self.author,
            r.description == self.description,
            r.boilerplate_code == self.boilerplate_code,
            r.test_cases@ == self.test_cases@,
            r.difficulty == self.difficulty,
    {
        let cases = copy_cases(&self.test_cases, self.test_cases.len());
        assert(self.test_cases@.take(self.test_cases@.len() as int) =~= self.test_cases@);
        Problem {
            id: self.id.clone(),
            title: self.title.clone(),
            author: self.author.clone(),
            description: self.description.clone(),
            boilerplate_code: self.boilerplate_code.clone(),
            test_cases: cases,
            difficulty: self.difficulty,
        }
    }
}

/// How many test cases of a problem someone other than its author sees.
pub const SHOWN_TO_OTHERS: usize = 5;

/// The test cases of a problem that a viewer sees: all of them for its
/// author, at most the first five for anyone else.
pub open spec fn visible_cases(cases: Seq<TestCase>, is_author: bool) -> Seq<TestCase> {
    if is_author || cases.len() <= SHOWN_TO_OTHERS {
        cases
    } else {
        cases.take(SHOWN_TO_OTHERS as int)
    }
}

impl Problem {
    /// Keeps only the test cases that `viewer` may see.
    pub fn hide_tests_from(&mut self, viewer: &UserId)
        ensures
            final(self).test_cases@ == visible_cases(old(self).test_cases@, old(self).author.id@ == viewer@),
            final(self).id == old(self).id,
            final(self).title == old(self).title,
            final(self).author == old(self).author,
            final(self).description == old(self).description,
            final(self).boilerplate_code == old(self).boilerplate_code,
            final(self).difficulty == old(self).difficulty,
    {
        if self.author.id.0 != viewer.0 {
            self.test_cases.truncate(SHOWN_TO_OTHERS);
        }
        assert(self.test_cases@ =~= visible_cases(old(self).test_cases@, old(self).author.id@ == viewer@));
    }
}

/// A problem as its author edits it.
pub struct UpdateProblem {
    pub title: String,
    pub description: String,
    pub test_cases: Vec<TestCase>,
    pub boilerplate_code: Code,
    pub difficulty: i32,
}

/// A sign-in provider account linked to a user.
pub struct Account {
    pub provider: String,
    pub provider_type: String,
    pub provider_account_id: String,
    pub access_token: String,
    pub expires_at: u32,
    pub scope: String,
    pub token_type: String,
    pub id_token: String,
    pub user_id: String,
}

/// Selects the problems of a new room.
pub enum ProblemsFilter {
    Single { id: String },
}

/// Settings of a room, fixed at creation.
pub struct RoomConfig {
    pub name: String,
    pub public: bool,
    pub owner: User,
}

impl Clone for RoomConfig {
    fn clone(&self) -> (r: Self)
        ensures
            r == *self,
    {
        RoomConfig { name: self.name.clone(), public: self.public, owner: self.owner.clone() }
    }
}

} // verus!
