use earth_files::mode::{get_mode_part, set_mode_part, MODE_SHIFT_GROUP, MODE_SHIFT_OTHER, MODE_SHIFT_USER};

#[test]
fn mode_calculations() {
    for user in 0..=7 {
        for group in 0..=7 {
            for other in 0..=7 {
                let mode = (user << MODE_SHIFT_USER)
                    | (group << MODE_SHIFT_GROUP)
                    | (other << MODE_SHIFT_OTHER);
                assert_eq!(format!("{mode:03o}"), format!("{user:o}{group:o}{other:o}"),);
                assert_eq!(get_mode_part(mode, MODE_SHIFT_USER), user);
                assert_eq!(get_mode_part(mode, MODE_SHIFT_GROUP), group);
                assert_eq!(get_mode_part(mode, MODE_SHIFT_OTHER), other);

                let mode_no_user = (group << MODE_SHIFT_GROUP) | (other << MODE_SHIFT_OTHER);
                assert_eq!(
                    format!("{mode_no_user:03o}"),
                    format!("0{group:o}{other:o}")
                );
                assert_eq!(set_mode_part(mode_no_user, MODE_SHIFT_USER, user), mode);

                let mode_no_group = (user << MODE_SHIFT_USER) | (other << MODE_SHIFT_OTHER);
                assert_eq!(
                    format!("{mode_no_group:03o}"),
                    format!("{user:o}0{other:o}")
                );
                assert_eq!(set_mode_part(mode_no_group, MODE_SHIFT_GROUP, group), mode);

                let mode_no_other = (user << MODE_SHIFT_USER) | (group << MODE_SHIFT_GROUP);
                assert_eq!(
                    format!("{mode_no_other:03o}"),
                    format!("{user:o}{group:o}0")
                );
                assert_eq!(set_mode_part(mode_no_other, MODE_SHIFT_OTHER, other), mode);
            }
        }
    }
}

#[test]
fn setting_a_part_replaces_only_that_part() {
    // rwxr-x--- with the group's bits changed to rw-
    assert_eq!(set_mode_part(0o750, MODE_SHIFT_GROUP, 0o6), 0o760);
    // Bits outside the permission triplets are left alone.
    assert_eq!(set_mode_part(0o100644, MODE_SHIFT_OTHER, 0o7), 0o100647);
    assert_eq!(get_mode_part(0o100644, MODE_SHIFT_USER), 0o6);
}

#[test]
fn a_part_reads_back_what_was_set() {
    for bits in 0..=7 {
        let mode = set_mode_part(0o123, MODE_SHIFT_GROUP, bits);
        assert_eq!(get_mode_part(mode, MODE_SHIFT_GROUP), bits);
        assert_eq!(get_mode_part(mode, MODE_SHIFT_USER), 1);
        assert_eq!(get_mode_part(mode, MODE_SHIFT_OTHER), 3);
    }
}
