use pna_cli::cli::old_style::{encode_bsdtar_cd_args, expand_bsdtar_old_style_args, expand_bsdtar_w_option};

fn s(args: &[&str]) -> Vec<String> {
    args.iter().map(|a| a.to_string()).collect()
}

#[test]
fn unrelated_command_passthrough() {
    let args = s(&["pna", "create", "-f", "archive.pna", "dir"]);
    assert_eq!(expand_bsdtar_old_style_args(args.clone()), args);
}

#[test]
fn bare_stdio_without_parent_passthrough() {
    let args = s(&["pna", "stdio", "cvf", "archive.pna"]);
    assert_eq!(expand_bsdtar_old_style_args(args.clone()), args);
}

#[test]
fn single_char_action() {
    let args = s(&["pna", "experimental", "stdio", "c"]);
    assert_eq!(
        expand_bsdtar_old_style_args(args),
        s(&["pna", "experimental", "stdio", "-c"]),
    );
}

#[test]
fn flags_only() {
    let args = s(&["pna", "experimental", "stdio", "cv"]);
    assert_eq!(
        expand_bsdtar_old_style_args(args),
        s(&["pna", "experimental", "stdio", "-c", "-v"]),
    );
}

#[test]
fn flags_with_arg() {
    let args = s(&["pna", "experimental", "stdio", "cvf", "archive.pna", "dir"]);
    assert_eq!(
        expand_bsdtar_old_style_args(args),
        s(&[
            "pna",
            "experimental",
            "stdio",
            "-c",
            "-v",
            "-f",
            "archive.pna",
            "dir",
        ]),
    );
}

#[test]
fn multiple_arg_options() {
    let args = s(&[
        "pna",
        "experimental",
        "stdio",
        "cfC",
        "archive.pna",
        "/tmp",
        "dir",
    ]);
    assert_eq!(
        expand_bsdtar_old_style_args(args),
        s(&[
            "pna",
            "experimental",
            "stdio",
            "-c",
            "-f",
            "archive.pna",
            "-C",
            "/tmp",
            "dir",
        ]),
    );
}

#[test]
fn j_treated_as_flag() {
    let args = s(&["pna", "experimental", "stdio", "cJvf", "archive.pna", "dir"]);
    assert_eq!(
        expand_bsdtar_old_style_args(args),
        s(&[
            "pna",
            "experimental",
            "stdio",
            "-c",
            "-J",
            "-v",
            "-f",
            "archive.pna",
            "dir",
        ]),
    );
}

#[test]
fn no_action_flag_passthrough() {
    let args = s(&["pna", "experimental", "stdio", "vf", "archive.pna"]);
    assert_eq!(expand_bsdtar_old_style_args(args.clone()), args);
}

#[test]
fn unknown_flag_expanded_for_clap_to_reject() {
    // Unknown flags like `Q` are still expanded; clap rejects `-Q` with a clear error.
    let args = s(&["pna", "experimental", "stdio", "cQf", "archive.pna"]);
    assert_eq!(
        expand_bsdtar_old_style_args(args),
        s(&[
            "pna",
            "experimental",
            "stdio",
            "-c",
            "-Q",
            "-f",
            "archive.pna",
        ]),
    );
}

#[test]
fn non_alpha_char_passthrough() {
    let args = s(&["pna", "experimental", "stdio", "c2f", "archive.pna"]);
    assert_eq!(expand_bsdtar_old_style_args(args.clone()), args);
}

#[test]
fn empty_candidate_passthrough() {
    let args = s(&["pna", "experimental", "stdio", ""]);
    assert_eq!(expand_bsdtar_old_style_args(args.clone()), args);
}

#[test]
fn dash_prefix_passthrough() {
    let args = s(&["pna", "experimental", "stdio", "-cvf", "archive.pna", "dir"]);
    assert_eq!(expand_bsdtar_old_style_args(args.clone()), args);
}

#[test]
fn at_prefix_passthrough() {
    let args = s(&["pna", "experimental", "stdio", "@archive.pna"]);
    assert_eq!(expand_bsdtar_old_style_args(args.clone()), args);
}

#[test]
fn append_old_style() {
    let args = s(&["pna", "experimental", "stdio", "rf", "archive.pna", "dir"]);
    assert_eq!(
        expand_bsdtar_old_style_args(args),
        s(&[
            "pna",
            "experimental",
            "stdio",
            "-r",
            "-f",
            "archive.pna",
            "dir",
        ]),
    );
}

#[test]
fn update_old_style() {
    let args = s(&["pna", "experimental", "stdio", "uf", "archive.pna", "dir"]);
    assert_eq!(
        expand_bsdtar_old_style_args(args),
        s(&[
            "pna",
            "experimental",
            "stdio",
            "-u",
            "-f",
            "archive.pna",
            "dir",
        ]),
    );
}

#[test]
fn missing_arg_word() {
    let args = s(&["pna", "experimental", "stdio", "cf"]);
    assert_eq!(
        expand_bsdtar_old_style_args(args),
        s(&["pna", "experimental", "stdio", "-c", "-f"]),
    );
}

#[test]
fn multiple_arg_options_insufficient_trailing() {
    let args = s(&["pna", "experimental", "stdio", "cfC", "archive.pna"]);
    assert_eq!(
        expand_bsdtar_old_style_args(args),
        s(&[
            "pna",
            "experimental",
            "stdio",
            "-c",
            "-f",
            "archive.pna",
            "-C",
        ]),
    );
}

#[test]
fn interleaved_global_flags() {
    let args = s(&[
        "pna",
        "--quiet",
        "experimental",
        "stdio",
        "cvf",
        "archive.pna",
        "dir",
    ]);
    assert_eq!(
        expand_bsdtar_old_style_args(args),
        s(&[
            "pna",
            "--quiet",
            "experimental",
            "stdio",
            "-c",
            "-v",
            "-f",
            "archive.pna",
            "dir",
        ]),
    );
}

#[test]
fn global_flag_between_experimental_and_stdio() {
    let args = s(&[
        "pna",
        "experimental",
        "--unstable",
        "stdio",
        "tf",
        "archive.pna",
    ]);
    assert_eq!(
        expand_bsdtar_old_style_args(args),
        s(&[
            "pna",
            "experimental",
            "--unstable",
            "stdio",
            "-t",
            "-f",
            "archive.pna",
        ]),
    );
}

#[test]
fn old_style_followed_by_new_style() {
    let args = s(&[
        "pna",
        "experimental",
        "stdio",
        "cvf",
        "archive.pna",
        "--xz",
        "dir",
    ]);
    assert_eq!(
        expand_bsdtar_old_style_args(args),
        s(&[
            "pna",
            "experimental",
            "stdio",
            "-c",
            "-v",
            "-f",
            "archive.pna",
            "--xz",
            "dir",
        ]),
    );
}

#[test]
fn extract_old_style() {
    let args = s(&["pna", "experimental", "stdio", "xvf", "archive.pna"]);
    assert_eq!(
        expand_bsdtar_old_style_args(args),
        s(&[
            "pna",
            "experimental",
            "stdio",
            "-x",
            "-v",
            "-f",
            "archive.pna",
        ]),
    );
}

#[test]
fn list_old_style() {
    let args = s(&["pna", "experimental", "stdio", "tf", "archive.pna"]);
    assert_eq!(
        expand_bsdtar_old_style_args(args),
        s(&["pna", "experimental", "stdio", "-t", "-f", "archive.pna",]),
    );
}

#[test]
fn unstable_between_stdio_and_candidate() {
    let args = s(&[
        "pna",
        "experimental",
        "stdio",
        "--unstable",
        "cvf",
        "archive.pna",
        "dir",
    ]);
    assert_eq!(
        expand_bsdtar_old_style_args(args),
        s(&[
            "pna",
            "experimental",
            "stdio",
            "--unstable",
            "-c",
            "-v",
            "-f",
            "archive.pna",
            "dir",
        ]),
    );
}

#[test]
fn tvf_verbose_list() {
    let args = s(&["pna", "experimental", "stdio", "tvf", "archive.pna"]);
    assert_eq!(
        expand_bsdtar_old_style_args(args),
        s(&[
            "pna",
            "experimental",
            "stdio",
            "-t",
            "-v",
            "-f",
            "archive.pna"
        ]),
    );
}

#[test]
fn extract_with_directory_change_in_bundle() {
    let args = s(&[
        "pna",
        "experimental",
        "stdio",
        "xvfC",
        "archive.pna",
        "/tmp",
    ]);
    assert_eq!(
        expand_bsdtar_old_style_args(args),
        s(&[
            "pna",
            "experimental",
            "stdio",
            "-x",
            "-v",
            "-f",
            "archive.pna",
            "-C",
            "/tmp",
        ]),
    );
}

#[test]
fn empty_args() {
    let args: Vec<String> = vec![];
    assert_eq!(expand_bsdtar_old_style_args(args.clone()), args);
}

#[test]
fn binary_name_only() {
    let args = s(&["pna"]);
    assert_eq!(expand_bsdtar_old_style_args(args.clone()), args);
}

#[test]
fn no_candidate_after_stdio() {
    let args = s(&["pna", "experimental", "stdio"]);
    assert_eq!(expand_bsdtar_old_style_args(args.clone()), args);
}

#[test]
fn non_stdio_experimental_subcommand_passthrough() {
    let args = s(&["pna", "experimental", "delete", "cvf"]);
    assert_eq!(expand_bsdtar_old_style_args(args.clone()), args);
}

#[test]
fn all_flags_no_positional() {
    let args = s(&["pna", "--quiet", "--verbose"]);
    assert_eq!(expand_bsdtar_old_style_args(args.clone()), args);
}

#[test]
fn all_flags_after_experimental() {
    let args = s(&["pna", "experimental", "--flag1", "--flag2"]);
    assert_eq!(expand_bsdtar_old_style_args(args.clone()), args);
}

#[test]
fn short_flag_after_subcommand_means_new_style() {
    // `-x -C target ...` is new-style; must NOT expand `target` as old-style.
    let args = s(&[
        "pna",
        "experimental",
        "stdio",
        "--unstable",
        "-x",
        "-C",
        "target",
        "--strip-components",
        "2",
        "-f",
        "test.tar",
    ]);
    assert_eq!(expand_bsdtar_old_style_args(args.clone()), args);
}

#[test]
fn unknown_long_flag_after_subcommand_means_new_style() {
    // `--extract` is a bsdtar option, not a global flag — must be new-style.
    let args = s(&[
        "pna",
        "experimental",
        "stdio",
        "--unstable",
        "--extract",
        "--file",
        "archive.pna",
    ]);
    assert_eq!(expand_bsdtar_old_style_args(args.clone()), args);
}

#[test]
fn double_dash_before_experimental() {
    let args = s(&["pna", "--", "experimental", "stdio", "cvf", "archive.pna"]);
    assert_eq!(expand_bsdtar_old_style_args(args.clone()), args);
}

#[test]
fn double_dash_between_experimental_and_stdio() {
    let args = s(&["pna", "experimental", "--", "stdio", "cvf", "archive.pna"]);
    assert_eq!(expand_bsdtar_old_style_args(args.clone()), args);
}

#[test]
fn global_flag_with_space_value_before_experimental() {
    let args = s(&[
        "pna",
        "--color",
        "always",
        "experimental",
        "stdio",
        "cvf",
        "archive.pna",
        "dir",
    ]);
    assert_eq!(
        expand_bsdtar_old_style_args(args),
        s(&[
            "pna",
            "--color",
            "always",
            "experimental",
            "stdio",
            "-c",
            "-v",
            "-f",
            "archive.pna",
            "dir",
        ]),
    );
}

#[test]
fn global_flag_with_eq_value_before_experimental() {
    let args = s(&[
        "pna",
        "--color=always",
        "experimental",
        "stdio",
        "cvf",
        "archive.pna",
        "dir",
    ]);
    assert_eq!(
        expand_bsdtar_old_style_args(args),
        s(&[
            "pna",
            "--color=always",
            "experimental",
            "stdio",
            "-c",
            "-v",
            "-f",
            "archive.pna",
            "dir",
        ]),
    );
}

#[test]
fn global_flag_with_space_value_between_experimental_and_stdio() {
    let args = s(&[
        "pna",
        "experimental",
        "--color",
        "always",
        "stdio",
        "tf",
        "archive.pna",
    ]);
    assert_eq!(
        expand_bsdtar_old_style_args(args),
        s(&[
            "pna",
            "experimental",
            "--color",
            "always",
            "stdio",
            "-t",
            "-f",
            "archive.pna",
        ]),
    );
}

#[test]
fn multiple_global_flags_with_value() {
    let args = s(&[
        "pna",
        "--quiet",
        "--color",
        "never",
        "experimental",
        "stdio",
        "xf",
        "archive.pna",
    ]);
    assert_eq!(
        expand_bsdtar_old_style_args(args),
        s(&[
            "pna",
            "--quiet",
            "--color",
            "never",
            "experimental",
            "stdio",
            "-x",
            "-f",
            "archive.pna",
        ]),
    );
}

#[test]
fn w_option_help() {
    let args = s(&["pna", "experimental", "stdio", "-W", "help"]);
    assert_eq!(
        expand_bsdtar_w_option(args),
        s(&["pna", "experimental", "stdio", "--help"]),
    );
}

#[test]
fn w_option_version() {
    let args = s(&["pna", "experimental", "stdio", "-W", "version"]);
    assert_eq!(
        expand_bsdtar_w_option(args),
        s(&["pna", "experimental", "stdio", "--version"]),
    );
}

#[test]
fn w_option_with_equals_value() {
    let args = s(&[
        "pna",
        "experimental",
        "stdio",
        "-x",
        "-W",
        "strip-components=3",
        "-f",
        "a.pna",
    ]);
    assert_eq!(
        expand_bsdtar_w_option(args),
        s(&[
            "pna",
            "experimental",
            "stdio",
            "-x",
            "--strip-components=3",
            "-f",
            "a.pna",
        ]),
    );
}

#[test]
fn w_option_multiple() {
    let args = s(&[
        "pna",
        "experimental",
        "stdio",
        "-x",
        "-W",
        "same-owner",
        "-W",
        "keep-old-files",
        "-f",
        "a.pna",
    ]);
    assert_eq!(
        expand_bsdtar_w_option(args),
        s(&[
            "pna",
            "experimental",
            "stdio",
            "-x",
            "--same-owner",
            "--keep-old-files",
            "-f",
            "a.pna",
        ]),
    );
}

#[test]
fn w_option_trailing_no_arg() {
    let args = s(&["pna", "experimental", "stdio", "-x", "-W"]);
    assert_eq!(
        expand_bsdtar_w_option(args),
        s(&["pna", "experimental", "stdio", "-x", "-W"]),
    );
}

#[test]
fn w_option_no_stdio_passthrough() {
    let args = s(&["pna", "create", "-W", "help"]);
    assert_eq!(expand_bsdtar_w_option(args.clone()), args);
}

#[test]
fn w_option_with_unstable() {
    let args = s(&["pna", "experimental", "stdio", "--unstable", "-W", "help"]);
    assert_eq!(
        expand_bsdtar_w_option(args),
        s(&["pna", "experimental", "stdio", "--unstable", "--help"]),
    );
}

#[test]
fn w_option_after_old_style_expansion() {
    let args = s(&["pna", "experimental", "stdio", "-x", "-W", "help"]);
    assert_eq!(
        expand_bsdtar_w_option(args),
        s(&["pna", "experimental", "stdio", "-x", "--help"]),
    );
}

#[test]
fn w_option_after_double_dash_passthrough() {
    let args = s(&["pna", "experimental", "stdio", "-x", "--", "-W", "file"]);
    assert_eq!(expand_bsdtar_w_option(args.clone()), args);
}

#[test]
fn w_option_double_dash_before_experimental_passthrough() {
    let args = s(&["pna", "--", "experimental", "stdio", "-W", "help"]);
    assert_eq!(expand_bsdtar_w_option(args.clone()), args);
}

#[test]
fn w_option_double_dash_between_experimental_and_stdio() {
    let args = s(&["pna", "experimental", "--", "stdio", "-W", "help"]);
    assert_eq!(expand_bsdtar_w_option(args.clone()), args);
}

#[test]
fn w_option_non_stdio_experimental_subcommand_passthrough() {
    let args = s(&["pna", "experimental", "delete", "-W", "help"]);
    assert_eq!(expand_bsdtar_w_option(args.clone()), args);
}

#[test]
fn w_option_empty_args() {
    let args: Vec<String> = vec![];
    assert_eq!(expand_bsdtar_w_option(args.clone()), args);
}

#[test]
fn w_option_binary_name_only() {
    let args = s(&["pna"]);
    assert_eq!(expand_bsdtar_w_option(args.clone()), args);
}

#[test]
fn w_option_no_args_after_stdio() {
    let args = s(&["pna", "experimental", "stdio"]);
    assert_eq!(expand_bsdtar_w_option(args.clone()), args);
}

#[test]
fn w_option_single_token_not_matched() {
    let args = s(&["pna", "experimental", "stdio", "-Whelp"]);
    assert_eq!(expand_bsdtar_w_option(args.clone()), args);
}

#[test]
fn w_option_global_flag_with_value_before_experimental() {
    let args = s(&[
        "pna",
        "--color",
        "always",
        "experimental",
        "stdio",
        "-W",
        "help",
    ]);
    assert_eq!(
        expand_bsdtar_w_option(args),
        s(&[
            "pna",
            "--color",
            "always",
            "experimental",
            "stdio",
            "--help",
        ]),
    );
}

#[test]
fn w_option_global_flag_between_experimental_and_stdio() {
    let args = s(&[
        "pna",
        "experimental",
        "--color",
        "always",
        "stdio",
        "-W",
        "help",
    ]);
    assert_eq!(
        expand_bsdtar_w_option(args),
        s(&[
            "pna",
            "experimental",
            "--color",
            "always",
            "stdio",
            "--help",
        ]),
    );
}

#[test]
fn pipeline_old_style_with_w_and_value() {
    let args = s(&[
        "pna",
        "experimental",
        "stdio",
        "xW",
        "same-owner",
        "-f",
        "a.pna",
    ]);
    let args = expand_bsdtar_old_style_args(args);
    let args = expand_bsdtar_w_option(args);
    assert_eq!(
        args,
        s(&[
            "pna",
            "experimental",
            "stdio",
            "-x",
            "--same-owner",
            "-f",
            "a.pna"
        ]),
    );
}

#[test]
fn compat_bsdtar_old_style() {
    let args = s(&["pna", "compat", "bsdtar", "cvf", "archive.pna", "dir"]);
    assert_eq!(
        expand_bsdtar_old_style_args(args),
        s(&[
            "pna",
            "compat",
            "bsdtar",
            "-c",
            "-v",
            "-f",
            "archive.pna",
            "dir",
        ]),
    );
}

#[test]
fn compat_bsdtar_single_action() {
    let args = s(&["pna", "compat", "bsdtar", "t"]);
    assert_eq!(
        expand_bsdtar_old_style_args(args),
        s(&["pna", "compat", "bsdtar", "-t"]),
    );
}

#[test]
fn compat_bsdtar_with_global_flags() {
    let args = s(&["pna", "--quiet", "compat", "bsdtar", "xvf", "archive.pna"]);
    assert_eq!(
        expand_bsdtar_old_style_args(args),
        s(&[
            "pna",
            "--quiet",
            "compat",
            "bsdtar",
            "-x",
            "-v",
            "-f",
            "archive.pna",
        ]),
    );
}

#[test]
fn compat_bsdtar_new_style_passthrough() {
    let args = s(&[
        "pna",
        "compat",
        "bsdtar",
        "-c",
        "-v",
        "-f",
        "archive.pna",
        "dir",
    ]);
    assert_eq!(expand_bsdtar_old_style_args(args.clone()), args);
}

#[test]
fn compat_bsdtar_no_action_passthrough() {
    let args = s(&["pna", "compat", "bsdtar", "vf", "archive.pna"]);
    assert_eq!(expand_bsdtar_old_style_args(args.clone()), args);
}

#[test]
fn compat_bsdtar_w_option_help() {
    let args = s(&["pna", "compat", "bsdtar", "-W", "help"]);
    assert_eq!(
        expand_bsdtar_w_option(args),
        s(&["pna", "compat", "bsdtar", "--help"]),
    );
}

#[test]
fn compat_bsdtar_w_option_with_value() {
    let args = s(&[
        "pna",
        "compat",
        "bsdtar",
        "-x",
        "-W",
        "strip-components=3",
        "-f",
        "a.pna",
    ]);
    assert_eq!(
        expand_bsdtar_w_option(args),
        s(&[
            "pna",
            "compat",
            "bsdtar",
            "-x",
            "--strip-components=3",
            "-f",
            "a.pna",
        ]),
    );
}

#[test]
fn compat_bsdtar_w_option_no_compat_passthrough() {
    let args = s(&["pna", "create", "-W", "help"]);
    assert_eq!(expand_bsdtar_w_option(args.clone()), args);
}

#[test]
fn compat_without_bsdtar_passthrough() {
    let args = s(&["pna", "compat", "cvf", "archive.pna"]);
    assert_eq!(expand_bsdtar_old_style_args(args.clone()), args);
}

#[test]
fn compat_wrong_sub_keyword_passthrough() {
    let args = s(&["pna", "compat", "stdio", "cvf", "archive.pna"]);
    assert_eq!(expand_bsdtar_old_style_args(args.clone()), args);
}

#[test]
fn bare_bsdtar_without_compat_passthrough() {
    let args = s(&["pna", "bsdtar", "cvf", "archive.pna"]);
    assert_eq!(expand_bsdtar_old_style_args(args.clone()), args);
}

#[test]
fn compat_bsdtar_global_flag_between_compat_and_bsdtar() {
    let args = s(&[
        "pna",
        "compat",
        "--quiet",
        "bsdtar",
        "cvf",
        "archive.pna",
        "dir",
    ]);
    assert_eq!(
        expand_bsdtar_old_style_args(args),
        s(&[
            "pna",
            "compat",
            "--quiet",
            "bsdtar",
            "-c",
            "-v",
            "-f",
            "archive.pna",
            "dir",
        ]),
    );
}

#[test]
fn compat_bsdtar_unstable_after_bsdtar() {
    let args = s(&[
        "pna",
        "compat",
        "bsdtar",
        "--unstable",
        "cvf",
        "archive.pna",
        "dir",
    ]);
    assert_eq!(
        expand_bsdtar_old_style_args(args),
        s(&[
            "pna",
            "compat",
            "bsdtar",
            "--unstable",
            "-c",
            "-v",
            "-f",
            "archive.pna",
            "dir",
        ]),
    );
}

#[test]
fn compat_bsdtar_pipeline_old_style_with_w() {
    let args = s(&["pna", "compat", "bsdtar", "xW", "same-owner", "-f", "a.pna"]);
    let args = expand_bsdtar_old_style_args(args);
    let args = expand_bsdtar_w_option(args);
    assert_eq!(
        args,
        s(&[
            "pna",
            "compat",
            "bsdtar",
            "-x",
            "--same-owner",
            "-f",
            "a.pna"
        ]),
    );
}

#[test]
fn compat_bsdtar_w_option_after_double_dash_passthrough() {
    let args = s(&["pna", "compat", "bsdtar", "-x", "--", "-W", "file"]);
    assert_eq!(expand_bsdtar_w_option(args.clone()), args);
}

#[test]
fn encode_cd_separate_form() {
    let args = s(&[
        "pna", "compat", "bsdtar", "-c", "-f", "out", "-C", "dir", "file",
    ]);
    let result = encode_bsdtar_cd_args(args);
    assert_eq!(
        result,
        s(&[
            "pna",
            "compat",
            "bsdtar",
            "-c",
            "-f",
            "out",
            "\0CD\0dir",
            "file"
        ]),
    );
}

#[test]
fn encode_cd_concatenated_form() {
    let args = s(&["pna", "compat", "bsdtar", "-c", "-Cdir", "file"]);
    let result = encode_bsdtar_cd_args(args);
    assert_eq!(
        result,
        s(&["pna", "compat", "bsdtar", "-c", "\0CD\0dir", "file"]),
    );
}

#[test]
fn encode_cd_long_form() {
    let args = s(&["pna", "compat", "bsdtar", "--cd", "dir", "file"]);
    let result = encode_bsdtar_cd_args(args);
    assert_eq!(result, s(&["pna", "compat", "bsdtar", "\0CD\0dir", "file"]),);
}

#[test]
fn encode_cd_long_eq_form() {
    let args = s(&["pna", "compat", "bsdtar", "--directory=dir", "file"]);
    let result = encode_bsdtar_cd_args(args);
    assert_eq!(result, s(&["pna", "compat", "bsdtar", "\0CD\0dir", "file"]),);
}

#[test]
fn encode_cd_multiple() {
    let args = s(&[
        "pna", "compat", "bsdtar", "-C", "d1", "f1", "-C", "d2", "f2",
    ]);
    let result = encode_bsdtar_cd_args(args);
    assert_eq!(
        result,
        s(&[
            "pna", "compat", "bsdtar", "\0CD\0d1", "f1", "\0CD\0d2", "f2"
        ]),
    );
}

#[test]
fn encode_cd_after_double_dash() {
    let args = s(&["pna", "compat", "bsdtar", "--", "-C", "dir"]);
    let result = encode_bsdtar_cd_args(args);
    assert_eq!(result, s(&["pna", "compat", "bsdtar", "--", "-C", "dir"]),);
}

#[test]
fn encode_cd_not_bsdtar() {
    let args = s(&["pna", "create", "-C", "dir", "file"]);
    let result = encode_bsdtar_cd_args(args);
    assert_eq!(result, s(&["pna", "create", "-C", "dir", "file"]));
}

#[test]
fn encode_cd_experimental_stdio() {
    let args = s(&["pna", "experimental", "stdio", "-C", "dir", "file"]);
    let result = encode_bsdtar_cd_args(args);
    assert_eq!(
        result,
        s(&["pna", "experimental", "stdio", "\0CD\0dir", "file"]),
    );
}

#[test]
fn encode_cd_with_unstable_flag() {
    let args = s(&["pna", "compat", "bsdtar", "--unstable", "-C", "dir", "file"]);
    let result = encode_bsdtar_cd_args(args);
    assert_eq!(
        result,
        s(&["pna", "compat", "bsdtar", "--unstable", "\0CD\0dir", "file"]),
    );
}

#[test]
fn encode_cd_after_old_style_c_cf_expansion() {
    // Simulates output of expand_bsdtar_old_style_args for "cCf dir archive file"
    let args = s(&[
        "pna", "compat", "bsdtar", "-c", "-C", "dir", "-f", "archive", "file",
    ]);
    let result = encode_bsdtar_cd_args(args);
    assert_eq!(
        result,
        s(&[
            "pna",
            "compat",
            "bsdtar",
            "-c",
            "\0CD\0dir",
            "-f",
            "archive",
            "file",
        ]),
    );
}

#[test]
fn cd_encoding_never_lengthens_and_keeps_the_prefix() {
    let args = s(&["pna", "compat", "bsdtar", "-C", "dir", "--cd=x", "-Cy", "f", "--", "-C", "z"]);
    let out = encode_bsdtar_cd_args(args.clone());
    assert!(out.len() <= args.len());
    assert_eq!(out[..3], args[..3]);
    let plain = s(&["pna", "create", "-C", "dir"]);
    assert_eq!(encode_bsdtar_cd_args(plain.clone()), plain);
}

#[test]
fn old_style_expansion_needs_a_bundle() {
    let no_bundle = s(&["pna", "compat", "bsdtar", "--quiet", "-c", "f"]);
    assert_eq!(expand_bsdtar_old_style_args(no_bundle.clone()), no_bundle);
    let digits = s(&["pna", "compat", "bsdtar", "c9f", "a"]);
    assert_eq!(expand_bsdtar_old_style_args(digits.clone()), digits);
}
