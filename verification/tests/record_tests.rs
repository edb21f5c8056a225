use rrg_diagram::record::CategoryKind;

#[test]
fn periphery_bases_of_the_two_periphery_kinds() {
    assert_eq!(
        CategoryKind::CoreP.periphery_base(),
        Some(CategoryKind::Core)
    );
    assert_eq!(
        CategoryKind::ClauseP.periphery_base(),
        Some(CategoryKind::Clause)
    );
}

#[test]
fn non_periphery_kinds_have_no_base() {
    assert_eq!(CategoryKind::Pred.periphery_base(), None);
    assert_eq!(CategoryKind::Nuc.periphery_base(), None);
    assert_eq!(CategoryKind::Core.periphery_base(), None);
    assert_eq!(CategoryKind::Clause.periphery_base(), None);
    assert_eq!(CategoryKind::Sentence.periphery_base(), None);
}

#[test]
fn kind_names_are_the_seven_layer_names() {
    assert_eq!(CategoryKind::Pred.name(), "Pred");
    assert_eq!(CategoryKind::Nuc.name(), "Nuc");
    assert_eq!(CategoryKind::Core.name(), "Core");
    assert_eq!(CategoryKind::CoreP.name(), "CoreP");
    assert_eq!(CategoryKind::Clause.name(), "Clause");
    assert_eq!(CategoryKind::ClauseP.name(), "ClauseP");
    assert_eq!(CategoryKind::Sentence.name(), "Sentence");
}
