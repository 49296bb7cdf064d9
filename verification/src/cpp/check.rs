//! The conventions a documented class is held to, and the findings where
//! it departs from them.

use vstd::prelude::*;
use crate::cpp::attribute::Attribute;
use crate::cpp::class::{Class, keyword};
use crate::cpp::common::{Access, Location, Parameter, place_of};
use crate::cpp::enumerated::{EnumValue, Enumerated};
use crate::cpp::finding::{Finding, FindingView, report, views};
use crate::cpp::function::Function;
use crate::cpp::initial::{
    first_is_uppercase,
    has_initial,
    has_initial_place,
    initial_is_uppercase,
    initial_upper,
    starts_upper,
};
use crate::text::{begins_with, contains, contains_text, glue, starts_with, texts};

verus! {

/// The finding that says `parts` about the item declared at `location`.
pub open spec fn said(parts: Seq<Seq<char>>, location: Option<Location>) -> FindingView {
    FindingView { message: glue(parts), location: place_of(location) }
}

/// `finding` where `due`, nothing otherwise.
pub open spec fn when(due: bool, finding: FindingView) -> Seq<FindingView> {
    if due {
        seq![finding]
    } else {
        Seq::empty()
    }
}

/// What there is to say about the name and the description of `class`,
/// `upper` telling whether its name is capitalised.
pub open spec fn class_head_findings(class: Class, upper: bool) -> Seq<FindingView> {
    when(
        !upper,
        said(
            seq!["Name of class "@, class.name@, " should start with an upper case letter"@],
            class.location,
        ),
    ) + when(
        class.brief is None && class.detailed is None,
        said(seq!["Class "@, class.name@, " has no description"@], class.location),
    )
}

/// What there is to say about the name and the description of an
/// enumeration, `upper` telling whether its name is capitalised.
pub open spec fn enum_head_findings(e: Enumerated, upper: bool) -> Seq<FindingView> {
    when(
        !upper,
        said(
            seq!["Name of enum "@, e.full_name@, " should start with an upper case letter"@],
            e.location,
        ),
    ) + when(
        e.brief is None,
        said(seq!["Enum "@, e.full_name@, " has no description"@], e.location),
    )
}

/// What there is to say about one value of an enumeration, `upper`
/// telling whether its name is capitalised.
pub open spec fn enum_value_findings(e: Enumerated, v: EnumValue, upper: bool) -> Seq<
    FindingView,
> {
    when(
        v.brief is None,
        said(
            seq!["Value "@, v.name@, " of enum "@, e.full_name@, " has not decription"@],
            e.location,
        ),
    ) + when(
        !upper,
        said(
            seq![
                "Value "@,
                v.name@,
                " of enum "@,
                e.full_name@,
                " should start with an upper case letter"@,
            ],
            e.location,
        ),
    )
}

/// What there is to say about the name of a data member: a static
/// constant starts with a capital (`upper` tells whether it does), another
/// static member with `s_`, and a member of a class that is no struct with
/// `m_`.
pub open spec fn attribute_name_findings(class: Class, a: Attribute, upper: bool) -> Seq<
    FindingView,
> {
    if a.is_static {
        if begins_with(a.ctype@, "const"@) {
            when(
                !upper,
                said(
                    seq![
                        "Static const attribute "@,
                        a.name@,
                        " of "@,
                        keyword(class.is_struct),
                        " "@,
                        class.name@,
                        " should start with an upper case letter"@,
                    ],
                    a.location,
                ),
            )
        } else {
            when(
                !begins_with(a.name@, "s_"@),
                said(
                    seq![
                        "Static attribute "@,
                        a.name@,
                        " of "@,
                        keyword(class.is_struct),
                        " "@,
                        class.name@,
                        " should start with a s_"@,
                    ],
                    a.location,
                ),
            )
        }
    } else {
        when(
            !class.is_struct && !begins_with(a.name@, "m_"@),
            said(
                seq![
                    "Attribute "@,
                    a.name@,
                    " of class "@,
                    class.name@,
                    " should start with a m_"@,
                ],
                a.location,
            ),
        )
    }
}

/// What there is to say about the description and the access of a data
/// member.
pub open spec fn attribute_findings(class: Class, a: Attribute) -> Seq<FindingView> {
    when(
        a.brief is None && a.detailed is None,
        said(
            seq![
                "Attribute "@,
                a.name@,
                " of class "@,
                class.name@,
                " should have a description"@,
            ],
            a.location,
        ),
    ) + when(
        a.access == Access::Public && !class.is_struct,
        said(
            seq!["Attribute "@, a.name@, " of class "@, class.name@, " should not be public"@],
            a.location,
        ),
    )
}

/// A function returns something that wants a description: it has a return
/// type that is not empty and does not mention `void`.
pub open spec fn returns_something(f: Function) -> bool {
    f.ret_type matches Some(t) && !contains_text(t@, "void"@) && t@.len() > 0
}

/// What there is to say about the descriptions of a function and of what
/// it returns.
pub open spec fn function_head_findings(class: Class, f: Function) -> Seq<FindingView> {
    when(
        f.description is None && f.brief is None,
        said(
            seq![
                "Function "@,
                f.name@,
                " of class "@,
                class.name@,
                " should have a description"@,
            ],
            f.location,
        ),
    ) + when(
        returns_something(f) && f.ret_description is None,
        said(
            seq![
                "Function "@,
                f.name@,
                " of class "@,
                class.name@,
                " should have a description for the returned type ("@,
                f.ret_type->0@,
                ")"@,
            ],
            f.location,
        ),
    )
}

/// The text of a finding about a parameter named `name`.
pub open spec fn parameter_message(class: Class, f: Function, name: Seq<char>, what: Seq<char>) -> Seq<
    Seq<char>,
> {
    seq!["Parameter "@, name, " of function "@, f.name@, " of class "@, class.name@, what]
}

/// What there is to say about a parameter: it is documented but not
/// declared, or declared but not described, or its name lacks the prefix
/// `p_`; the first of these that holds is reported.
pub open spec fn parameter_findings(class: Class, f: Function, p: Parameter) -> Seq<FindingView>
    recommends
        p.name is Some,
{
    let name = p.name->0@;
    if p.ctype is None {
        seq![said(parameter_message(class, f, name, " doesn't exist"@), f.location)]
    } else if p.description is None {
        seq![said(parameter_message(class, f, name, " should have a description"@), f.location)]
    } else {
        when(
            !begins_with(name, "p_"@),
            said(parameter_message(class, f, name, " should start with p_"@), f.location),
        )
    }
}

/// The findings about the first `upto` values of an enumeration.
pub open spec fn values_findings(e: Enumerated, upto: int) -> Seq<FindingView>
    decreases upto,
{
    if upto <= 0 {
        Seq::empty()
    } else {
        let v = e.values@[upto - 1];
        values_findings(e, upto - 1) + enum_value_findings(e, v, starts_upper(v.name@))
    }
}

/// The findings about an enumeration and its values.
pub open spec fn enum_findings(e: Enumerated) -> Seq<FindingView> {
    enum_head_findings(e, initial_upper(e.name@)) + values_findings(e, e.values@.len() as int)
}

/// The findings about the first `upto` enumerations of a class.
pub open spec fn enums_findings(class: Class, upto: int) -> Seq<FindingView>
    decreases upto,
{
    if upto <= 0 {
        Seq::empty()
    } else {
        enums_findings(class, upto - 1) + enum_findings(class.enums@[upto - 1])
    }
}

/// The findings about one data member.
pub open spec fn member_findings(class: Class, a: Attribute) -> Seq<FindingView> {
    attribute_name_findings(class, a, starts_upper(a.name@)) + attribute_findings(class, a)
}

/// The findings about the first `upto` data members of a class.
pub open spec fn attributes_findings(class: Class, upto: int) -> Seq<FindingView>
    decreases upto,
{
    if upto <= 0 {
        Seq::empty()
    } else {
        attributes_findings(class, upto - 1) + member_findings(class, class.attributes@[upto - 1])
    }
}

/// The findings about the first `upto` parameters of a function.
pub open spec fn parameters_findings(class: Class, f: Function, upto: int) -> Seq<FindingView>
    decreases upto,
{
    if upto <= 0 {
        Seq::empty()
    } else {
        parameters_findings(class, f, upto - 1) + parameter_findings(
            class,
            f,
            f.parameters@[upto - 1],
        )
    }
}

/// The findings about a function and its parameters.
pub open spec fn function_findings(class: Class, f: Function) -> Seq<FindingView> {
    function_head_findings(class, f) + parameters_findings(class, f, f.parameters@.len() as int)
}

/// The findings about the first `upto` functions of a class.
pub open spec fn functions_findings(class: Class, upto: int) -> Seq<FindingView>
    decreases upto,
{
    if upto <= 0 {
        Seq::empty()
    } else {
        functions_findings(class, upto - 1) + function_findings(class, class.functions@[upto - 1])
    }
}

/// Everything there is to say about a class: about its own name and
/// description, then about its enumerations, its data members and its
/// functions, each group in declaration order.
pub open spec fn class_findings(class: Class) -> Seq<FindingView> {
    class_head_findings(class, initial_upper(class.name@)) + enums_findings(
        class,
        class.enums@.len() as int,
    ) + attributes_findings(class, class.attributes@.len() as int) + functions_findings(
        class,
        class.functions@.len() as int,
    )
}

/// A static member of constant type: the kind that is named with a capital.
pub open spec fn is_static_constant(a: Attribute) -> bool {
    a.is_static && begins_with(a.ctype@, "const"@)
}

/// An enumeration whose names can be judged: its own has an initial and
/// none of its values is nameless.
pub open spec fn enum_checkable(e: Enumerated) -> bool {
    &&& has_initial(e.name@)
    &&& forall|j: int| 0 <= j < e.values@.len() ==> (#[trigger] e.values@[j]).name@.len() > 0
}

/// A function all of whose parameters have a name.
pub open spec fn function_checkable(f: Function) -> bool {
    forall|j: int| 0 <= j < f.parameters@.len() ==> (#[trigger] f.parameters@[j]).name is Some
}

/// A class that can be checked: every name that has to be judged by a
/// character has that character, and every parameter has a name.
pub open spec fn checkable(class: Class) -> bool {
    &&& has_initial(class.name@)
    &&& forall|i: int| 0 <= i < class.enums@.len() ==> enum_checkable(#[trigger] class.enums@[i])
    &&& forall|i: int|
        0 <= i < class.attributes@.len() && is_static_constant(#[trigger] class.attributes@[i])
            ==> class.attributes@[i].name@.len() > 0
    &&& forall|i: int|
        0 <= i < class.functions@.len() ==> function_checkable(#[trigger] class.functions@[i])
}

/// Adds to `out`, where it is `due`, the finding that says `parts` about
/// the item declared at `location`.
pub fn report_when(
    out: &mut Vec<Finding>,
    due: bool,
    parts: &Vec<&str>,
    location: &Option<Location>,
)
    ensures
        views(final(out)@) == views(old(out)@) + when(due, said(texts(parts@), *location)),
{
    if due {
        report(out, parts, location);
        assert(views(out@) =~= views(old(out)@) + when(due, said(texts(parts@), *location)));
    } else {
        assert(views(out@) =~= views(old(out)@) + when(due, said(texts(parts@), *location)));
    }
}

/// Checks the name and the description of a class; `upper` tells whether
/// its name is capitalised.
pub fn check_class_head(class: &Class, upper: bool, out: &mut Vec<Finding>)
    ensures
        views(final(out)@) == views(old(out)@) + class_head_findings(*class, upper),
{
    let name = class.name.as_str();
    let parts = vec!["Name of class ", name, " should start with an upper case letter"];
    assert(texts(parts@) =~= seq![
        "Name of class "@,
        class.name@,
        " should start with an upper case letter"@,
    ]);
    report_when(out, !upper, &parts, &class.location);
    let parts = vec!["Class ", name, " has no description"];
    assert(texts(parts@) =~= seq!["Class "@, class.name@, " has no description"@]);
    report_when(out, class.brief.is_none() && class.detailed.is_none(), &parts, &class.location);
    assert(views(out@) =~= views(old(out)@) + class_head_findings(*class, upper));
}

/// Checks the name and the description of an enumeration; `upper` tells
/// whether its name is capitalised.
pub fn check_enum_head(e: &Enumerated, upper: bool, out: &mut Vec<Finding>)
    ensures
        views(final(out)@) == views(old(out)@) + enum_head_findings(*e, upper),
{
    let name = e.full_name.as_str();
    let parts = vec!["Name of enum ", name, " should start with an upper case letter"];
    assert(texts(parts@) =~= seq![
        "Name of enum "@,
        e.full_name@,
        " should start with an upper case letter"@,
    ]);
    report_when(out, !upper, &parts, &e.location);
    let parts = vec!["Enum ", name, " has no description"];
    assert(texts(parts@) =~= seq!["Enum "@, e.full_name@, " has no description"@]);
    report_when(out, e.brief.is_none(), &parts, &e.location);
    assert(views(out@) =~= views(old(out)@) + enum_head_findings(*e, upper));
}

/// Checks one value of an enumeration; `upper` tells whether its name is
/// capitalised.
pub fn check_enum_value(e: &Enumerated, v: &EnumValue, upper: bool, out: &mut Vec<Finding>)
    ensures
        views(final(out)@) == views(old(out)@) + enum_value_findings(*e, *v, upper),
{
    let of = e.full_name.as_str();
    let name = v.name.as_str();
    let parts = vec!["Value ", name, " of enum ", of, " has not decription"];
    assert(texts(parts@) =~= seq![
        "Value "@,
        v.name@,
        " of enum "@,
        e.full_name@,
        " has not decription"@,
    ]);
    report_when(out, v.brief.is_none(), &parts, &e.location);
    let parts = vec!["Value ", name, " of enum ", of, " should start with an upper case letter"];
    assert(texts(parts@) =~= seq![
        "Value "@,
        v.name@,
        " of enum "@,
        e.full_name@,
        " should start with an upper case letter"@,
    ]);
    report_when(out, !upper, &parts, &e.location);
    assert(views(out@) =~= views(old(out)@) + enum_value_findings(*e, *v, upper));
}

/// Checks the name of a data member; `upper` tells whether it is
/// capitalised, which matters for a static constant only.
pub fn judge_attribute_name(class: &Class, a: &Attribute, upper: bool, out: &mut Vec<Finding>)
    ensures
        views(final(out)@) == views(old(out)@) + attribute_name_findings(*class, *a, upper),
{
    let name = a.name.as_str();
    let of = class.name.as_str();
    if a.is_static {
        let kind = class.object_type();
        if starts_with(a.ctype.as_str(), "const") {
            let parts = vec![
                "Static const attribute ",
                name,
                " of ",
                kind,
                " ",
                of,
                " should start with an upper case letter",
            ];
            assert(texts(parts@) =~= seq![
                "Static const attribute "@,
                a.name@,
                " of "@,
                keyword(class.is_struct),
                " "@,
                class.name@,
                " should start with an upper case letter"@,
            ]);
            report_when(out, !upper, &parts, &a.location);
        } else {
            let parts = vec![
                "Static attribute ",
                name,
                " of ",
                kind,
                " ",
                of,
                " should start with a s_",
            ];
            assert(texts(parts@) =~= seq![
                "Static attribute "@,
                a.name@,
                " of "@,
                keyword(class.is_struct),
                " "@,
                class.name@,
                " should start with a s_"@,
            ]);
            report_when(out, !starts_with(name, "s_"), &parts, &a.location);
        }
    } else {
        let parts = vec!["Attribute ", name, " of class ", of, " should start with a m_"];
        assert(texts(parts@) =~= seq![
            "Attribute "@,
            a.name@,
            " of class "@,
            class.name@,
            " should start with a m_"@,
        ]);
        report_when(out, !class.is_struct && !starts_with(name, "m_"), &parts, &a.location);
    }
}

/// Checks the name of a data member.
pub fn check_attribute_name(class: &Class, a: &Attribute, out: &mut Vec<Finding>)
    requires
        is_static_constant(*a) ==> a.name@.len() > 0,
    ensures
        views(final(out)@) == views(old(out)@) + attribute_name_findings(
            *class,
            *a,
            starts_upper(a.name@),
        ),
{
    if a.is_static && starts_with(a.ctype.as_str(), "const") {
        let upper = first_is_uppercase(a.name.as_str());
        judge_attribute_name(class, a, upper, out);
    } else {
        judge_attribute_name(class, a, false, out);
    }
}

/// Checks the description and the access of a data member.
pub fn check_attribute(class: &Class, a: &Attribute, out: &mut Vec<Finding>)
    ensures
        views(final(out)@) == views(old(out)@) + attribute_findings(*class, *a),
{
    let name = a.name.as_str();
    let of = class.name.as_str();
    let parts = vec!["Attribute ", name, " of class ", of, " should have a description"];
    assert(texts(parts@) =~= seq![
        "Attribute "@,
        a.name@,
        " of class "@,
        class.name@,
        " should have a description"@,
    ]);
    report_when(out, a.brief.is_none() && a.detailed.is_none(), &parts, &a.location);
    let parts = vec!["Attribute ", name, " of class ", of, " should not be public"];
    assert(texts(parts@) =~= seq![
        "Attribute "@,
        a.name@,
        " of class "@,
        class.name@,
        " should not be public"@,
    ]);
    report_when(out, a.access == Access::Public && !class.is_struct, &parts, &a.location);
    assert(views(out@) =~= views(old(out)@) + attribute_findings(*class, *a));
}

/// Checks the descriptions of a function and of what it returns.
pub fn check_function_head(class: &Class, f: &Function, out: &mut Vec<Finding>)
    ensures
        views(final(out)@) == views(old(out)@) + function_head_findings(*class, *f),
{
    let name = f.name.as_str();
    let of = class.name.as_str();
    let parts = vec!["Function ", name, " of class ", of, " should have a description"];
    assert(texts(parts@) =~= seq![
        "Function "@,
        f.name@,
        " of class "@,
        class.name@,
        " should have a description"@,
    ]);
    report_when(out, f.description.is_none() && f.brief.is_none(), &parts, &f.location);
    let ghost first = views(out@);
    match &f.ret_type {
        Some(t) => {
            let returned = t.as_str();
            let due = !contains(returned, "void") && !returned.is_empty()
                && f.ret_description.is_none();
            let parts = vec![
                "Function ",
                name,
                " of class ",
                of,
                " should have a description for the returned type (",
                returned,
                ")",
            ];
            assert(texts(parts@) =~= seq![
                "Function "@,
                f.name@,
                " of class "@,
                class.name@,
                " should have a description for the returned type ("@,
                t@,
                ")"@,
            ]);
            report_when(out, due, &parts, &f.location);
        },
        None => {
            assert(views(out@) =~= first + Seq::<FindingView>::empty());
        },
    }
    assert(views(out@) =~= views(old(out)@) + function_head_findings(*class, *f));
}

/// Checks one parameter of a function.
pub fn check_parameter(class: &Class, f: &Function, p: &Parameter, out: &mut Vec<Finding>)
    requires
        p.name is Some,
    ensures
        views(final(out)@) == views(old(out)@) + parameter_findings(*class, *f, *p),
{
    let name = match &p.name {
        Some(n) => n.as_str(),
        None => "",
    };
    let function = f.name.as_str();
    let of = class.name.as_str();
    if p.ctype.is_none() {
        let parts = vec![
            "Parameter ",
            name,
            " of function ",
            function,
            " of class ",
            of,
            " doesn't exist",
        ];
        assert(texts(parts@) =~= parameter_message(*class, *f, p.name->0@, " doesn't exist"@));
        report_when(out, true, &parts, &f.location);
    } else if p.description.is_none() {
        let parts = vec![
            "Parameter ",
            name,
            " of function ",
            function,
            " of class ",
            of,
            " should have a description",
        ];
        assert(texts(parts@) =~= parameter_message(
            *class,
            *f,
            p.name->0@,
            " should have a description"@,
        ));
        report_when(out, true, &parts, &f.location);
    } else {
        let parts = vec![
            "Parameter ",
            name,
            " of function ",
            function,
            " of class ",
            of,
            " should start with p_",
        ];
        assert(texts(parts@) =~= parameter_message(
            *class,
            *f,
            p.name->0@,
            " should start with p_"@,
        ));
        report_when(out, !starts_with(name, "p_"), &parts, &f.location);
    }
}

/// Checks an enumeration and its values.
pub fn check_enum(e: &Enumerated, out: &mut Vec<Finding>)
    requires
        enum_checkable(*e),
    ensures
        views(final(out)@) == views(old(out)@) + enum_findings(*e),
{
    let upper = initial_is_uppercase(e.name.as_str());
    check_enum_head(e, upper, out);
    let ghost head = views(out@);
    let mut j: usize = 0;
    assert(head + values_findings(*e, 0) =~= head);
    while j < e.values.len()
        invariant
            enum_checkable(*e),
            0 <= j <= e.values@.len(),
            head == views(old(out)@) + enum_head_findings(*e, initial_upper(e.name@)),
            views(out@) == head + values_findings(*e, j as int),
        decreases e.values@.len() - j,
    {
        let v = &e.values[j];
        let upper = first_is_uppercase(v.name.as_str());
        check_enum_value(e, v, upper, out);
        assert(views(out@) =~= head + values_findings(*e, j + 1));
        j += 1;
    }
    assert(views(out@) =~= views(old(out)@) + enum_findings(*e));
}

/// Checks a function and its parameters.
pub fn check_function(class: &Class, f: &Function, out: &mut Vec<Finding>)
    requires
        function_checkable(*f),
    ensures
        views(final(out)@) == views(old(out)@) + function_findings(*class, *f),
{
    check_function_head(class, f, out);
    let ghost head = views(out@);
    let mut j: usize = 0;
    assert(head + parameters_findings(*class, *f, 0) =~= head);
    while j < f.parameters.len()
        invariant
            function_checkable(*f),
            0 <= j <= f.parameters@.len(),
            head == views(old(out)@) + function_head_findings(*class, *f),
            views(out@) == head + parameters_findings(*class, *f, j as int),
        decreases f.parameters@.len() - j,
    {
        check_parameter(class, f, &f.parameters[j], out);
        assert(views(out@) =~= head + parameters_findings(*class, *f, j + 1));
        j += 1;
    }
    assert(views(out@) =~= views(old(out)@) + function_findings(*class, *f));
}

/// Holds a class to the conventions and lists every departure: first what
/// concerns the class itself, then its enumerations, its data members and
/// its functions, each in declaration order.
pub fn check_class(class: &Class) -> (findings: Vec<Finding>)
    requires
        checkable(*class),
    ensures
        views(findings@) == class_findings(*class),
{
    let mut out: Vec<Finding> = Vec::new();
    assert(views(out@) =~= Seq::<FindingView>::empty());
    let upper = initial_is_uppercase(class.name.as_str());
    check_class_head(class, upper, &mut out);
    let ghost head = views(out@);
    assert(head =~= class_head_findings(*class, initial_upper(class.name@)));

    let mut i: usize = 0;
    assert(head + enums_findings(*class, 0) =~= head);
    while i < class.enums.len()
        invariant
            checkable(*class),
            0 <= i <= class.enums@.len(),
            views(out@) == head + enums_findings(*class, i as int),
        decreases class.enums@.len() - i,
    {
        check_enum(&class.enums[i], &mut out);
        assert(views(out@) =~= head + enums_findings(*class, i + 1));
        i += 1;
    }
    let ghost with_enums = views(out@);

    let mut i: usize = 0;
    assert(with_enums + attributes_findings(*class, 0) =~= with_enums);
    while i < class.attributes.len()
        invariant
            checkable(*class),
            0 <= i <= class.attributes@.len(),
            views(out@) == with_enums + attributes_findings(*class, i as int),
        decreases class.attributes@.len() - i,
    {
        let a = &class.attributes[i];
        check_attribute_name(class, a, &mut out);
        check_attribute(class, a, &mut out);
        assert(views(out@) =~= with_enums + attributes_findings(*class, i + 1));
        i += 1;
    }
    let ghost with_attributes = views(out@);

    let mut i: usize = 0;
    assert(with_attributes + functions_findings(*class, 0) =~= with_attributes);
    while i < class.functions.len()
        invariant
            checkable(*class),
            0 <= i <= class.functions@.len(),
            views(out@) == with_attributes + functions_findings(*class, i as int),
        decreases class.functions@.len() - i,
    {
        check_function(class, &class.functions[i], &mut out);
        assert(views(out@) =~= with_attributes + functions_findings(*class, i + 1));
        i += 1;
    }
    out
}

/// Whether an enumeration can be checked.
pub fn is_enum_checkable(e: &Enumerated) -> (ok: bool)
    ensures
        ok == enum_checkable(*e),
{
    if !has_initial_place(e.name.as_str()) {
        return false;
    }
    let mut j: usize = 0;
    while j < e.values.len()
        invariant
            0 <= j <= e.values@.len(),
            forall|k: int| 0 <= k < j ==> (#[trigger] e.values@[k]).name@.len() > 0,
        decreases e.values@.len() - j,
    {
        if e.values[j].name.as_str().is_empty() {
            return false;
        }
        j += 1;
    }
    true
}

/// Whether every parameter of a function has a name.
pub fn is_function_checkable(f: &Function) -> (ok: bool)
    ensures
        ok == function_checkable(*f),
{
    let mut j: usize = 0;
    while j < f.parameters.len()
        invariant
            0 <= j <= f.parameters@.len(),
            forall|k: int| 0 <= k < j ==> (#[trigger] f.parameters@[k]).name is Some,
        decreases f.parameters@.len() - j,
    {
        if f.parameters[j].name.is_none() {
            return false;
        }
        j += 1;
    }
    true
}

/// Whether a class can be checked.
pub fn is_checkable(class: &Class) -> (ok: bool)
    ensures
        ok == checkable(*class),
{
    if !has_initial_place(class.name.as_str()) {
        return false;
    }
    let mut i: usize = 0;
    while i < class.enums.len()
        invariant
            0 <= i <= class.enums@.len(),
            forall|k: int| 0 <= k < i ==> enum_checkable(#[trigger] class.enums@[k]),
        decreases class.enums@.len() - i,
    {
        if !is_enum_checkable(&class.enums[i]) {
            return false;
        }
        i += 1;
    }
    let mut i: usize = 0;
    while i < class.attributes.len()
        invariant
            0 <= i <= class.attributes@.len(),
            forall|k: int|
                0 <= k < i && is_static_constant(#[trigger] class.attributes@[k])
                    ==> class.attributes@[k].name@.len() > 0,
        decreases class.attributes@.len() - i,
    {
        let a = &class.attributes[i];
        if a.is_static && starts_with(a.ctype.as_str(), "const") && a.name.as_str().is_empty() {
            return false;
        }
        i += 1;
    }
    let mut i: usize = 0;
    while i < class.functions.len()
        invariant
            0 <= i <= class.functions@.len(),
            forall|k: int| 0 <= k < i ==> function_checkable(#[trigger] class.functions@[k]),
        decreases class.functions@.len() - i,
    {
        if !is_function_checkable(&class.functions[i]) {
            return false;
        }
        i += 1;
    }
    true
}

} // verus!
