use vstd::prelude::*;

use crate::text::{chars_string, push_all, str_chars};

verus! {

pub enum JavaType<'class> {
    Int,
    Float,
    Double,
    Byte,
    Long,
    Short,
    Instance { class_name: &'class str },
    Array { typ: Box<JavaType<'class>> },
    Bool,
    Char,
}

pub enum JavaAccessLevel {
    Public,
    Private,
    Protected,
}

pub struct JavaField<'class> {
    pub identifier: &'class str,
    pub value: &'class str,
    pub typ: JavaType<'class>,
    pub access_level: JavaAccessLevel,
}

pub struct JavaMethod<'class> {
    pub identifier: &'class str,
    pub return_type: JavaType<'class>,
    pub access_level: JavaAccessLevel,
    pub parameter: Vec<(JavaType<'class>, &'class str)>,
    pub body: &'class str,
}

pub struct JavaClass<'class> {
    pub package: &'class str,
    pub class_name: &'class str,
    pub super_class: Option<&'class str>,
    pub interfaces: Vec<&'class str>,
    pub class_members: Vec<JavaField<'class>>,
    pub class_methods: Vec<JavaMethod<'class>>,
}

// ------------------------------------------------------------------
// Rendering
// ------------------------------------------------------------------

pub open spec fn type_text(t: JavaType) -> Seq<char> {
    match t {
        JavaType::Float => "float"@,
        JavaType::Bool => "bool"@,
        _ => "undefined"@,
    }
}

pub open spec fn access_text(a: JavaAccessLevel) -> Seq<char> {
    match a {
        JavaAccessLevel::Public => "public"@,
        JavaAccessLevel::Private => "private"@,
        JavaAccessLevel::Protected => "protected"@,
    }
}

/// `<access> <type> <identifier> = <value>;`
pub open spec fn field_text(f: JavaField) -> Seq<char> {
    access_text(f.access_level) + " "@ + type_text(f.typ) + " "@ + f.identifier@ + " = "@
        + f.value@ + ";"@
}

/// The member block: four spaces of indent and a newline around each field.
pub open spec fn members_text(ms: Seq<JavaField>) -> Seq<char>
    decreases ms.len(),
{
    if ms.len() == 0 {
        Seq::<char>::empty()
    } else {
        "    "@ + field_text(ms[0]) + "\n"@ + members_text(ms.skip(1))
    }
}

/// The interface list, comma-separated.
pub open spec fn comma_join(xs: Seq<Seq<char>>) -> Seq<char>
    decreases xs.len(),
{
    if xs.len() == 0 {
        Seq::<char>::empty()
    } else if xs.len() == 1 {
        xs[0]
    } else {
        xs[0] + ", "@ + comma_join(xs.skip(1))
    }
}

/// The rendered class source: package header, a fixed import line, the
/// class head with its optional superclass and interfaces, and the
/// member block. Methods are not rendered.
pub open spec fn class_text(c: JavaClass) -> Seq<char> {
    "package "@ + c.package@ + ";\n\nimport none;\n\npublic class "@ + c.class_name@ + " "@
        + (match c.super_class {
        Some(sc) => "extends "@ + sc@ + " "@,
        None => Seq::<char>::empty(),
    }) + (if c.interfaces@.len() > 0 {
        "implements "@ + comma_join(c.interfaces.deep_view()) + " "@
    } else {
        Seq::<char>::empty()
    }) + "{\n"@ + members_text(c.class_members@) + "}\n"@
}

impl<'class> JavaType<'class> {
    pub fn render(&self) -> (r: String)
        ensures
            r@ == type_text(*self),
    {
        match self {
            JavaType::Float => "float".to_owned(),
            JavaType::Bool => "bool".to_owned(),
            _ => "undefined".to_owned(),
        }
    }
}

impl JavaAccessLevel {
    pub fn render(&self) -> (r: String)
        ensures
            r@ == access_text(*self),
    {
        match self {
            JavaAccessLevel::Public => "public".to_owned(),
            JavaAccessLevel::Private => "private".to_owned(),
            JavaAccessLevel::Protected => "protected".to_owned(),
        }
    }
}

impl<'class> JavaField<'class> {
    pub fn new(
        identifier: &'class str,
        value: &'class str,
        typ: JavaType<'class>,
        access_level: JavaAccessLevel,
    ) -> (r: Self)
        ensures
            r.identifier@ == identifier@,
            r.value@ == value@,
            r.typ == typ,
            r.access_level == access_level,
    {
        JavaField { identifier, value, typ, access_level }
    }

    pub fn render(&self) -> (r: String)
        ensures
            r@ == field_text(*self),
    {
        let mut out: String = self.access_level.render();
        out.append(" ");
        let t = self.typ.render();
        out.append(t.as_str());
        out.append(" ");
        out.append(self.identifier);
        out.append(" = ");
        out.append(self.value);
        out.append(";");
        out
    }
}

impl<'class> JavaClass<'class> {
    pub fn new(
        package: &'class str,
        class_name: &'class str,
        super_class: Option<&'class str>,
        interfaces: Vec<&'class str>,
        class_members: Vec<JavaField<'class>>,
        class_methods: Vec<JavaMethod<'class>>,
    ) -> (r: Self)
        ensures
            r.package@ == package@,
            r.class_name@ == class_name@,
            r.super_class == super_class,
            r.interfaces == interfaces,
            r.class_members == class_members,
            r.class_methods == class_methods,
    {
        JavaClass { package, class_name, super_class, interfaces, class_members, class_methods }
    }

    pub fn render(&self) -> (r: String)
        ensures
            r@ == class_text(*self),
    {
        let mut out: String = "package ".to_owned();
        out.append(self.package);
        out.append(";\n\nimport none;\n\npublic class ");
        out.append(self.class_name);
        out.append(" ");
        match self.super_class {
            Some(sc) => {
                out.append("extends ");
                out.append(sc);
                out.append(" ");
            },
            None => {},
        }
        if self.interfaces.len() > 0 {
            out.append("implements ");
            let joined = comma_join_exec(&self.interfaces);
            out.append(joined.as_str());
            out.append(" ");
        }
        out.append("{\n");
        let mut k: usize = 0;
        let ghost head = out@;
        proof {
            assert(self.class_members@.skip(0) =~= self.class_members@);
        }
        while k < self.class_members.len()
            invariant
                k <= self.class_members@.len(),
                out@ + members_text(self.class_members@.skip(k as int)) == head + members_text(
                    self.class_members@.skip(0),
                ),
            decreases self.class_members.len() - k,
        {
            let ghost rem = self.class_members@.skip(k as int);
            proof {
                assert(rem[0] == self.class_members@[k as int]);
                assert(rem.skip(1) =~= self.class_members@.skip(k + 1));
                assert(members_text(rem) == "    "@ + field_text(rem[0]) + "\n"@ + members_text(
                    self.class_members@.skip(k + 1),
                ));
            }
            out.append("    ");
            let f = self.class_members[k].render();
            out.append(f.as_str());
            out.append("\n");
            proof {
                assert(out@ + members_text(self.class_members@.skip(k + 1)) =~= head
                    + members_text(self.class_members@.skip(0)));
            }
            k = k + 1;
        }
        proof {
            assert(self.class_members@.skip(k as int) =~= Seq::<JavaField>::empty());
            assert(members_text(Seq::<JavaField>::empty()) == Seq::<char>::empty());
            assert(out@ + Seq::<char>::empty() =~= out@);
        }
        out.append("}\n");
        proof {
            assert(out@ =~= class_text(*self));
        }
        out
    }
}

fn comma_join_exec(xs: &Vec<&str>) -> (r: String)
    requires
        xs@.len() > 0,
    ensures
        r@ == comma_join(xs.deep_view()),
{
    let mut out: String = xs[0].to_owned();
    let mut k: usize = 1;
    while k < xs.len()
        invariant
            1 <= k <= xs@.len(),
            xs.deep_view().len() == xs@.len(),
            forall|j: int| 0 <= j < xs@.len() ==> xs.deep_view()[j] == xs@[j]@,
            out@ == comma_join(xs.deep_view().take(k as int)),
        decreases xs.len() - k,
    {
        out.append(", ");
        out.append(xs[k]);
        proof {
            lemma_comma_join_push(xs.deep_view().take(k as int), xs.deep_view()[k as int]);
            assert(xs.deep_view().take(k + 1) =~= xs.deep_view().take(k as int).push(
                xs.deep_view()[k as int],
            ));
        }
        k = k + 1;
    }
    proof {
        assert(xs.deep_view().take(xs@.len() as int) =~= xs.deep_view());
    }
    out
}

proof fn lemma_comma_join_push(xs: Seq<Seq<char>>, x: Seq<char>)
    requires
        xs.len() >= 1,
    ensures
        comma_join(xs.push(x)) == comma_join(xs) + ", "@ + x,
    decreases xs.len(),
{
    if xs.len() == 1 {
        assert(xs.push(x)[0] == xs[0]);
        assert(xs.push(x).skip(1) =~= seq![x]);
        assert(comma_join(seq![x]) == x);
        assert(comma_join(xs.push(x)) == xs[0] + ", "@ + x);
        assert(comma_join(xs) == xs[0]);
    } else {
        assert(xs.push(x)[0] == xs[0]);
        assert(xs.push(x).skip(1) =~= xs.skip(1).push(x));
        lemma_comma_join_push(xs.skip(1), x);
        assert(comma_join(xs.push(x)) == xs[0] + ", "@ + (comma_join(xs.skip(1)) + ", "@ + x));
        assert(xs[0] + ", "@ + (comma_join(xs.skip(1)) + ", "@ + x) =~= (xs[0] + ", "@
            + comma_join(xs.skip(1))) + ", "@ + x);
    }
}

} // verus!
