use linz::ast::{Expr, FnExpr, PrimType, Qual, TypeExpr};
use linz::gc::GC;
use linz::text::skip_comment;

#[test]
fn comments_are_removed_and_lines_joined() {
    assert_eq!(skip_comment("let x : un bool = un true; // bind\nx"), "let x : un bool = un true; x".to_string());
}

#[test]
fn carriage_returns_belong_to_line_endings() {
    assert_eq!(skip_comment("a // c\r\nb\r\nc"), "a bc".to_string());
}

#[test]
fn text_without_comments_keeps_its_characters() {
    assert_eq!(skip_comment("a / b"), "a / b".to_string());
    assert_eq!(skip_comment("/"), "/".to_string());
    assert_eq!(skip_comment(""), "".to_string());
}

#[test]
fn whole_line_comments_vanish() {
    assert_eq!(skip_comment("// only\n//\nz//"), "z".to_string());
}

#[test]
fn gc_records_closures_unmarked() {
    let mut gc = GC::new();
    assert!(gc.closures.is_empty());
    let f = FnExpr {
        var: "u".to_string(),
        ty: TypeExpr { qual: Qual::Un, prim: PrimType::Bool },
        expr: Box::new(Expr::Var("u".to_string())),
    };
    gc.insert(f);
    assert_eq!(gc.closures.len(), 1);
    assert!(!gc.closures[0].is_marked);
    assert_eq!(gc.closures[0].closure.var, "u".to_string());
}
