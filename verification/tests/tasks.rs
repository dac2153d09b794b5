use embedded2020::tasks::{
    declare, split, verify, Attribute, FnItem, Item, Module, Statement, StaticItem, TaskError,
};

fn static_item(name: &str, attrs: Vec<Attribute>, private: bool, mutable: bool) -> StaticItem {
    StaticItem { name: String::from(name), attrs, private, mutable }
}

fn uninit(tokens: &str) -> Attribute {
    Attribute { ident: Some(String::from("uninit")), tokens: String::from(tokens) }
}

fn task(name: &str, body: Vec<Statement>) -> Item {
    Item::Fn(FnItem { name: String::from(name), has_attrs: false, private: true, plain_signature: true, body })
}

#[test]
fn statics_are_checked() {
    assert_eq!(verify(&static_item("X", vec![], true, true)), Ok(false));
    assert_eq!(verify(&static_item("X", vec![uninit("(unsafe)")], true, true)), Ok(true));
    assert_eq!(verify(&static_item("X", vec![uninit("()")], true, true)), Err(TaskError::UninitWithoutUnsafe));
    let other = Attribute { ident: Some(String::from("used")), tokens: String::new() };
    assert_eq!(verify(&static_item("X", vec![other], true, true)), Err(TaskError::StaticAttributes));
    assert_eq!(verify(&static_item("X", vec![], false, true)), Err(TaskError::PublicStatic));
    assert_eq!(verify(&static_item("X", vec![], true, false)), Err(TaskError::ImmutableStatic));
}

#[test]
fn leading_statics_are_locals() {
    let body = vec![
        Statement::Static(static_item("A", vec![], true, true)),
        Statement::Static(static_item("B", vec![uninit("(unsafe)")], true, true)),
        Statement::Other,
        Statement::Static(static_item("C", vec![], true, true)),
    ];
    let (locals, start) = split(&body).unwrap();
    assert_eq!(locals.len(), 2);
    assert_eq!(locals[1].name, "B");
    assert!(locals[1].uninit);
    assert_eq!(start, 2);
}

#[test]
fn task_modules() {
    let m = Module {
        private: true,
        has_attrs: false,
        content: Some(vec![
            Item::Use,
            Item::Static(static_item("SHARED", vec![], true, true)),
            task("init", vec![Statement::Other]),
            task("idle", vec![Statement::Static(static_item("N", vec![], true, true))]),
        ]),
    };
    let tm = declare(true, &m).unwrap();
    assert_eq!(tm.uses, 1);
    assert_eq!(tm.statics.len(), 1);
    assert_eq!(tm.tasks.len(), 2);
    assert!(tm.tasks[0].is_init);
    assert!(!tm.tasks[1].is_init);
    assert_eq!(tm.tasks[1].locals.len(), 1);
    assert_eq!(tm.tasks[1].body_start, 1);

    assert!(matches!(declare(false, &m), Err(TaskError::Arguments)));
    let public = Module { private: false, has_attrs: false, content: Some(vec![]) };
    assert!(matches!(declare(true, &public), Err(TaskError::PublicModule)));
    let outline = Module { private: true, has_attrs: false, content: None };
    assert!(matches!(declare(true, &outline), Err(TaskError::NotInline)));
    let odd = Module { private: true, has_attrs: false, content: Some(vec![Item::Other]) };
    assert!(matches!(declare(true, &odd), Err(TaskError::OtherItem)));
    let bad_fn = Module {
        private: true,
        has_attrs: false,
        content: Some(vec![Item::Fn(FnItem {
            name: String::from("t"),
            has_attrs: false,
            private: true,
            plain_signature: false,
            body: vec![],
        })]),
    };
    assert!(matches!(declare(true, &bad_fn), Err(TaskError::Signature)));
}
