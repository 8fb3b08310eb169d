use scriptlang::context::{Context, Frame};
use scriptlang::environment::Environment;
use scriptlang::object::{NativeFunctionCallback, Object};
use scriptlang::stdlib::get_lib;

fn name(text: &str) -> String {
    text.to_string()
}

fn number(value: Option<&Object>) -> Option<u64> {
    match value {
        Some(Object::Number(bits)) => Some(*bits),
        _ => None,
    }
}

#[test]
fn frame_binds_and_rebinds() {
    let mut frame = Frame::new();
    assert!(frame.get(&name("a")).is_none());
    assert!(!frame.contains_key(&name("a")));
    frame.insert(name("a"), Object::Number(1));
    frame.insert(name("b"), Object::Number(2));
    assert_eq!(number(frame.get(&name("a"))), Some(1));
    assert_eq!(number(frame.get(&name("b"))), Some(2));
    frame.insert(name("a"), Object::Number(3));
    assert_eq!(number(frame.get(&name("a"))), Some(3));
    assert_eq!(number(frame.get(&name("b"))), Some(2));
    assert!(frame.contains_key(&name("a")));
    assert!(!frame.contains_key(&name("c")));
}

#[test]
fn library_holds_print_and_println() {
    let lib = get_lib();
    match lib.get(&name("print")) {
        Some(Object::NativeFunction(def)) => {
            assert_eq!(def.name, "print");
            assert_eq!(def.callback, NativeFunctionCallback::Print);
        }
        other => panic!("unexpected binding {:?}", other),
    }
    match lib.get(&name("println")) {
        Some(Object::NativeFunction(def)) => {
            assert_eq!(def.name, "println");
            assert_eq!(def.callback, NativeFunctionCallback::Println);
        }
        other => panic!("unexpected binding {:?}", other),
    }
    assert!(lib.get(&name("printf")).is_none());
}

#[test]
fn get_finds_the_innermost_binding() {
    let mut context = Context::from(Frame::new());
    context.insert(name("x"), Object::Number(1));
    context.enter_scope();
    assert_eq!(number(context.get(&name("x"))), Some(1));
    context.insert(name("x"), Object::Number(2));
    assert_eq!(number(context.get(&name("x"))), Some(2));
    context.enter_scope();
    assert_eq!(number(context.get(&name("x"))), Some(2));
    context.exit_scope();
    context.exit_scope();
    assert_eq!(number(context.get(&name("x"))), Some(1));
    assert!(context.get(&name("y")).is_none());
}

#[test]
fn contains_gives_the_index_of_the_owning_frame() {
    let mut context = Context::from(Frame::new());
    assert_eq!(context.contains(&name("x")), None);
    context.insert(name("x"), Object::Number(1));
    assert_eq!(context.contains(&name("x")), Some(0));
    context.enter_scope();
    context.enter_scope();
    assert_eq!(context.contains(&name("x")), Some(0));
    context.insert(name("y"), Object::Number(1));
    assert_eq!(context.contains(&name("y")), Some(2));
    context.insert(name("x"), Object::Number(1));
    assert_eq!(context.contains(&name("x")), Some(2));
    context.exit_scope();
    assert_eq!(context.contains(&name("y")), None);
    assert_eq!(context.contains(&name("x")), Some(0));
}

#[test]
fn insert_declares_in_the_innermost_frame_only() {
    let mut context = Context::from(Frame::new());
    context.insert(name("x"), Object::Number(1));
    context.enter_scope();
    context.insert(name("x"), Object::Number(2));
    context.insert(name("z"), Object::Number(9));
    context.exit_scope();
    assert_eq!(number(context.get(&name("x"))), Some(1));
    assert!(context.get(&name("z")).is_none());
}

#[test]
fn insert_at_overwrites_in_the_given_frame() {
    let mut context = Context::from(Frame::new());
    context.insert(name("x"), Object::Number(1));
    context.enter_scope();
    context.insert(name("x"), Object::Number(2));
    context.enter_scope();
    context.insert_at(name("x"), Object::Number(7), 0);
    assert_eq!(number(context.get(&name("x"))), Some(2));
    context.insert_at(name("x"), Object::Number(8), 1);
    assert_eq!(number(context.get(&name("x"))), Some(8));
    context.exit_scope();
    context.exit_scope();
    assert_eq!(number(context.get(&name("x"))), Some(7));
}

#[test]
fn assignment_writes_where_contains_points() {
    let mut context = Context::from(Frame::new());
    context.insert(name("x"), Object::Number(1));
    context.enter_scope();
    context.enter_scope();
    let index = context.contains(&name("x")).unwrap();
    context.insert_at(name("x"), Object::Number(5), index);
    assert_eq!(context.contains(&name("x")), Some(0));
    context.exit_scope();
    context.exit_scope();
    assert_eq!(number(context.get(&name("x"))), Some(5));
}

#[test]
fn environment_is_the_scope_stack() {
    let mut environment = Environment::from(get_lib());
    assert_eq!(environment.contains(&name("print")), Some(0));
    environment.enter_scope();
    environment.insert(name("print"), Object::Bool(true));
    assert_eq!(environment.contains(&name("print")), Some(1));
    environment.exit_scope();
    assert!(matches!(environment.get(&name("print")), Some(Object::NativeFunction(_))));
}
