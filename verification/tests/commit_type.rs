use commit_formatter::commit_type::{selected_tag, type_options, CommitType, TYPE_COUNT};

const TAGS: [&str; 11] =
    ["feat", "fix", "docs", "style", "refactor", "perf", "test", "build", "ci", "chore", "revert"];

#[test]
fn there_are_eleven_types_in_a_fixed_order() {
    assert_eq!(TYPE_COUNT, 11);
    for (index, tag) in TAGS.iter().enumerate() {
        let commit_type = CommitType::from_index(index).unwrap();
        assert_eq!(commit_type.tag(), *tag);
        assert_eq!(commit_type.index(), index);
    }
    assert_eq!(CommitType::from_index(11), None);
    assert_eq!(CommitType::from_index(usize::MAX), None);
}

#[test]
fn each_type_has_a_description() {
    assert_eq!(CommitType::Feat.description(), "新功能 (A new feature)");
    assert_eq!(CommitType::Fix.description(), "修复bug (A bug fix)");
    assert_eq!(CommitType::Docs.description(), "文档更新 (Documentation only changes)");
    assert_eq!(
        CommitType::Style.description(),
        "代码格式 (Changes that do not affect the meaning of the code)"
    );
    assert_eq!(
        CommitType::Refactor.description(),
        "重构 (A code change that neither fixes a bug nor adds a feature)"
    );
    assert_eq!(CommitType::Perf.description(), "性能优化 (A code change that improves performance)");
    assert_eq!(
        CommitType::Test.description(),
        "测试 (Adding missing tests or correcting existing tests)"
    );
    assert_eq!(
        CommitType::Build.description(),
        "构建系统 (Changes that affect the build system or external dependencies)"
    );
    assert_eq!(
        CommitType::Ci.description(),
        "CI配置 (Changes to our CI configuration files and scripts)"
    );
    assert_eq!(
        CommitType::Chore.description(),
        "其他杂务 (Other changes that don't modify src or test files)"
    );
    assert_eq!(CommitType::Revert.description(), "回滚 (Reverts a previous commit)");
}

#[test]
fn a_label_is_tag_colon_description() {
    assert_eq!(CommitType::Feat.label(), "feat: 新功能 (A new feature)");
    assert_eq!(CommitType::Revert.label(), "回滚 (Reverts a previous commit)".replace("回滚", "revert: 回滚"));
}

#[test]
fn options_are_the_labels_in_order() {
    let options = type_options();
    assert_eq!(options.len(), 11);
    for (index, option) in options.iter().enumerate() {
        assert_eq!(*option, CommitType::from_index(index).unwrap().label());
    }
    assert_eq!(options[8], "ci: CI配置 (Changes to our CI configuration files and scripts)");
}

#[test]
fn the_tag_is_read_back_from_every_option() {
    for (index, option) in type_options().iter().enumerate() {
        assert_eq!(selected_tag(option), TAGS[index]);
    }
}

#[test]
fn selected_tag_is_what_stands_before_the_first_colon() {
    assert_eq!(selected_tag("  fix : a: b"), "fix");
    assert_eq!(selected_tag("no colon here "), "no colon here");
    assert_eq!(selected_tag(": nothing before"), "");
    assert_eq!(selected_tag(""), "");
}
