use arc::hook::{hook_decision, no_command_decision, HookDecision};

#[test]
fn exit_zero_proceeds_unless_output_decides() {
    assert_eq!(hook_decision(0, None), HookDecision::Proceed);
    let b = HookDecision::Block { reason: Some("nope".to_string()) };
    assert_eq!(hook_decision(0, Some(b.clone())), b);
}

#[test]
fn exit_two_blocks_unless_output_decides() {
    assert_eq!(
        hook_decision(2, None),
        HookDecision::Block { reason: Some("hook exited with code 2".to_string()) }
    );
    assert_eq!(hook_decision(2, Some(HookDecision::Proceed)), HookDecision::Proceed);
}

#[test]
fn other_exit_codes_block_with_the_code() {
    assert_eq!(
        hook_decision(1, Some(HookDecision::Proceed)),
        HookDecision::Block { reason: Some("hook exited with code 1".to_string()) }
    );
    assert_eq!(
        hook_decision(-9, None),
        HookDecision::Block { reason: Some("hook exited with code -9".to_string()) }
    );
}

#[test]
fn missing_command_blocks() {
    assert_eq!(no_command_decision(), HookDecision::Block { reason: Some("no command specified".to_string()) });
}
