use vstd::prelude::*;

verus! {

/// One registered class.
pub struct ClassInfo {
    /// Unique name of the class.
    pub name: String,
    /// The class it derives from, if any.
    pub parent: Option<usize>,
    /// Whether instances are destroyed by reference counting.
    pub counted: bool,
}

/// Why a registration was turned down.
#[derive(Clone, Copy, Debug, PartialEq, Eq, Structural)]
pub enum RegistrationError {
    /// A class of that name is registered already.
    DuplicateName,
    /// The named parent is not a registered class.
    UnknownParent,
}

/// The classes known to the binding, in order of registration.
pub struct ClassTable {
    classes: Vec<ClassInfo>,
}

/// Is class `sub` the class `sup` or one derived from it?
pub open spec fn inherits_in(classes: Seq<ClassInfo>, sub: int, sup: int) -> bool
    decreases sub,
{
    if sub < 0 || sub >= classes.len() {
        false
    } else if sub == sup {
        true
    } else {
        match classes[sub].parent {
            Some(p) => p < sub && inherits_in(classes, p as int, sup),
            None => false,
        }
    }
}

/// Does some class in `classes` carry the name `name`?
pub open spec fn has_name(classes: Seq<ClassInfo>, name: Seq<char>) -> bool {
    exists|i: int| 0 <= i < classes.len() && #[trigger] classes[i].name@ == name
}

/// Every parent is registered before its children, a class derived from a
/// reference-counted one is reference-counted too, and no name occurs twice.
pub open spec fn table_wf(classes: Seq<ClassInfo>) -> bool {
    &&& forall|i: int|
        0 <= i < classes.len() ==> match (#[trigger] classes[i]).parent {
            Some(p) => p < i && (classes[p as int].counted ==> classes[i].counted),
            None => true,
        }
    &&& forall|i: int, j: int|
        0 <= i < j < classes.len() ==> (#[trigger] classes[i]).name@ != (#[trigger] classes[j]).name@
}

/// The entry that a class gets when it is registered: it counts
/// references if it is asked to or if its parent does.
pub open spec fn registered(
    classes: Seq<ClassInfo>,
    name: String,
    parent: Option<usize>,
    counted: bool,
) -> ClassInfo {
    ClassInfo {
        name,
        parent,
        counted: counted || (parent is Some && classes[parent->0 as int].counted),
    }
}

impl ClassTable {
    /// The registered classes.
    pub closed spec fn view(&self) -> Seq<ClassInfo> {
        self.classes@
    }

    /// The table's invariant.
    pub open spec fn wf(&self) -> bool {
        table_wf(self@)
    }

    /// `sub` is `sup` or derives from it.
    pub open spec fn spec_inherits(&self, sub: usize, sup: usize) -> bool {
        inherits_in(self@, sub as int, sup as int)
    }

    /// An empty table.
    pub fn new() -> (table: ClassTable)
        ensures
            table.wf(),
            table@.len() == 0,
    {
        ClassTable { classes: Vec::new() }
    }

    /// Number of registered classes.
    pub fn len(&self) -> (n: usize)
        ensures
            n == self@.len(),
    {
        self.classes.len()
    }

    /// Looks a class up by name.
    pub fn find(&self, name: &String) -> (found: Option<usize>)
        ensures
            match found {
                Some(i) => i < self@.len() && self@[i as int].name@ == name@,
                None => !has_name(self@, name@),
            },
    {
        let mut i: usize = 0;
        while i < self.classes.len()
            invariant
                i <= self.classes.len(),
                forall|j: int| 0 <= j < i ==> (#[trigger] self.classes@[j]).name@ != name@,
            decreases self.classes.len() - i,
        {
            if self.classes[i].name == *name {
                return Some(i);
            }
            i += 1;
        }
        None
    }

    /// Registers a class. It is reference-counted if `counted` says so or
    /// if its parent is.
    ///
    /// A name that is taken is refused, and so is a parent that was never
    /// registered; the table is then left as it was.
    pub fn register(&mut self, name: String, parent: Option<usize>, counted: bool) -> (result:
        Result<usize, RegistrationError>)
        requires
            old(self).wf(),
        ensures
            final(self).wf(),
            match result {
                Ok(id) => {
                    &&& !has_name(old(self)@, name@)
                    &&& parent is Some ==> parent->0 < old(self)@.len()
                    &&& id == old(self)@.len()
                    &&& final(self)@ == old(self)@.push(registered(old(self)@, name, parent, counted))
                },
                Err(RegistrationError::DuplicateName) => {
                    &&& has_name(old(self)@, name@)
                    &&& final(self)@ == old(self)@
                },
                Err(RegistrationError::UnknownParent) => {
                    &&& !has_name(old(self)@, name@)
                    &&& parent is Some && parent->0 >= old(self)@.len()
                    &&& final(self)@ == old(self)@
                },
            },
    {
        if self.find(&name).is_some() {
            return Err(RegistrationError::DuplicateName);
        }
        let inherited = match parent {
            Some(p) => {
                if p >= self.classes.len() {
                    return Err(RegistrationError::UnknownParent);
                }
                self.classes[p].counted
            },
            None => false,
        };
        let id = self.classes.len();
        self.classes.push(ClassInfo { name, parent, counted: counted || inherited });
        Ok(id)
    }

    /// Whether instances of `class` are reference-counted.
    pub fn is_counted(&self, class: usize) -> (counted: bool)
        requires
            class < self@.len(),
        ensures
            counted == self@[class as int].counted,
    {
        self.classes[class].counted
    }

    /// Name of a registered class.
    pub fn name(&self, class: usize) -> (name: &String)
        requires
            class < self@.len(),
        ensures
            name@ == self@[class as int].name@,
    {
        &self.classes[class].name
    }

    /// Whether `sub` is `sup` or derives from it. A class that is not
    /// registered derives from nothing, not even itself.
    pub fn inherits(&self, sub: usize, sup: usize) -> (yes: bool)
        requires
            self.wf(),
        ensures
            yes == self.spec_inherits(sub, sup),
    {
        if sub >= self.classes.len() {
            return false;
        }
        let mut cur = sub;
        loop
            invariant
                self.wf(),
                cur < self.classes.len(),
                inherits_in(self@, cur as int, sup as int) == inherits_in(
                    self@,
                    sub as int,
                    sup as int,
                ),
            decreases cur,
        {
            if cur == sup {
                return true;
            }
            match self.classes[cur].parent {
                Some(p) => {
                    cur = p;
                },
                None => {
                    return false;
                },
            }
        }
    }
}

/// Every registered class derives from itself.
pub proof fn lemma_inherits_reflexive(classes: Seq<ClassInfo>, c: int)
    requires
        0 <= c < classes.len(),
    ensures
        inherits_in(classes, c, c),
{
}

/// Whatever derives from something is itself registered, and comes no
/// earlier in the table than what it derives from.
pub proof fn lemma_inherits_bounds(classes: Seq<ClassInfo>, sub: int, sup: int)
    requires
        inherits_in(classes, sub, sup),
    ensures
        0 <= sup <= sub < classes.len(),
    decreases sub,
{
    if sub != sup {
        lemma_inherits_bounds(classes, classes[sub].parent->0 as int, sup);
    }
}

/// Deriving is transitive.
pub proof fn lemma_inherits_transitive(classes: Seq<ClassInfo>, a: int, b: int, c: int)
    requires
        inherits_in(classes, a, b),
        inherits_in(classes, b, c),
    ensures
        inherits_in(classes, a, c),
    decreases a,
{
    if a != b {
        lemma_inherits_transitive(classes, classes[a].parent->0 as int, b, c);
    }
}

/// Two classes that derive from each other are one class.
pub proof fn lemma_inherits_antisymmetric(classes: Seq<ClassInfo>, a: int, b: int)
    requires
        inherits_in(classes, a, b),
        inherits_in(classes, b, a),
    ensures
        a == b,
{
    lemma_inherits_bounds(classes, a, b);
    lemma_inherits_bounds(classes, b, a);
}

/// A class derived from a reference-counted class is reference-counted.
pub proof fn lemma_counted_is_inherited(classes: Seq<ClassInfo>, sub: int, sup: int)
    requires
        table_wf(classes),
        inherits_in(classes, sub, sup),
        classes[sup].counted,
    ensures
        classes[sub].counted,
    decreases sub,
{
    if sub != sup {
        lemma_counted_is_inherited(classes, classes[sub].parent->0 as int, sup);
    }
}

/// Registering a class changes nothing about how the classes registered
/// before it derive from one another.
pub proof fn lemma_inherits_after_push(classes: Seq<ClassInfo>, added: ClassInfo, sub: int, sup: int)
    requires
        0 <= sub < classes.len(),
    ensures
        inherits_in(classes.push(added), sub, sup) == inherits_in(classes, sub, sup),
    decreases sub,
{
    if sub != sup {
        match classes[sub].parent {
            Some(p) => {
                if p < sub {
                    lemma_inherits_after_push(classes, added, p as int, sup);
                }
            },
            None => {},
        }
    }
}

} // verus!
