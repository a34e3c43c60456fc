use roper_redux::engine::{classify_stop, EngineError, Fault, Stop};
use roper_redux::lifecycle::{Call, Lifecycle};

#[test]
fn codes_and_numbers_round_trip() {
    for code in 0u32..=21 {
        assert_eq!(EngineError::from_code(code).unwrap().code(), code);
    }
    assert_eq!(EngineError::from_code(22), None);
    assert_eq!(EngineError::from_code(u32::MAX), None);
}

#[test]
fn numbers_of_some_codes() {
    assert_eq!(EngineError::NoError.code(), 0);
    assert_eq!(EngineError::ReadUnmapped.code(), 6);
    assert_eq!(EngineError::InsnInvalid.code(), 10);
    assert_eq!(EngineError::Mapping.code(), 11);
    assert_eq!(EngineError::Arg.code(), 15);
    assert_eq!(EngineError::Exception.code(), 21);
}

#[test]
fn faults_of_the_codes() {
    type E = EngineError;
    for e in [E::FetchUnmapped, E::FetchProt, E::FetchUnaligned] {
        assert_eq!(e.fault(), Some(Fault::InvalidFetch));
    }
    for e in [E::ReadUnmapped, E::ReadProt, E::ReadUnaligned] {
        assert_eq!(e.fault(), Some(Fault::InvalidRead));
    }
    for e in [E::WriteUnmapped, E::WriteProt, E::WriteUnaligned] {
        assert_eq!(e.fault(), Some(Fault::InvalidWrite));
    }
    assert_eq!(E::InsnInvalid.fault(), Some(Fault::InvalidInstruction));
    let others = [
        E::NoError, E::NoMem, E::Arch, E::Handle, E::Mode, E::Version, E::Hook, E::Mapping,
        E::Arg, E::HookExist, E::Resource, E::Exception,
    ];
    for e in others {
        assert_eq!(e.fault(), None);
    }
}

#[test]
fn how_a_run_ended() {
    assert_eq!(classify_stop(Ok(()), 0x10004), Stop::Normal);
    assert_eq!(classify_stop(Err(EngineError::NoError), 0x10004), Stop::Normal);
    assert_eq!(
        classify_stop(Err(EngineError::FetchUnmapped), 0x41414140),
        Stop::Fault { kind: Fault::InvalidFetch, address: 0x41414140 }
    );
    assert_eq!(
        classify_stop(Err(EngineError::WriteProt), 0x10008),
        Stop::Fault { kind: Fault::InvalidWrite, address: 0x10008 }
    );
    assert_eq!(
        classify_stop(Err(EngineError::ReadUnaligned), 1),
        Stop::Fault { kind: Fault::InvalidRead, address: 1 }
    );
    assert_eq!(
        classify_stop(Err(EngineError::InsnInvalid), u64::MAX),
        Stop::Fault { kind: Fault::InvalidInstruction, address: u64::MAX }
    );
    assert_eq!(classify_stop(Err(EngineError::Mapping), 0), Stop::Refused(EngineError::Mapping));
    assert_eq!(classify_stop(Err(EngineError::NoMem), 0), Stop::Refused(EngineError::NoMem));
}

#[test]
fn the_life_of_an_instance() {
    let s = Lifecycle::new();
    assert_eq!(s, Lifecycle::Empty);
    let s = s.next(Call::MapPages).unwrap();
    assert_eq!(s, Lifecycle::Mapped);
    let s = s.next(Call::WriteMemory).unwrap();
    assert_eq!(s, Lifecycle::Mapped);
    let s = s.next(Call::InstallHook).unwrap();
    assert_eq!(s, Lifecycle::Mapped);
    let s = s.next(Call::Start).unwrap();
    assert_eq!(s, Lifecycle::Running);
    let s = s.next(Call::Stop).unwrap();
    assert_eq!(s, Lifecycle::Halted);
    let s = s.next(Call::WriteMemory).unwrap();
    assert_eq!(s, Lifecycle::Halted);
    let s = s.next(Call::RemoveHook).unwrap();
    assert_eq!(s, Lifecycle::Halted);
    let s = s.next(Call::Start).unwrap();
    assert_eq!(s, Lifecycle::Running);
}

#[test]
fn a_running_instance_takes_nothing_but_its_end() {
    for call in [Call::MapPages, Call::WriteMemory, Call::InstallHook, Call::RemoveHook, Call::Start] {
        assert_eq!(Lifecycle::Running.next(call), None);
    }
    assert_eq!(Lifecycle::Running.next(Call::Stop), Some(Lifecycle::Halted));
    assert!(!Lifecycle::Running.takes_hooks());
}

#[test]
fn hooks_are_taken_outside_a_run() {
    for s in [Lifecycle::Empty, Lifecycle::Mapped, Lifecycle::Halted] {
        assert!(s.takes_hooks());
        assert_eq!(s.next(Call::InstallHook), Some(s));
        assert_eq!(s.next(Call::RemoveHook), Some(s));
        assert_eq!(s.next(Call::Stop), None);
    }
}

#[test]
fn an_empty_instance_does_not_run() {
    assert_eq!(Lifecycle::Empty.next(Call::Start), None);
    assert_eq!(Lifecycle::Empty.next(Call::WriteMemory), Some(Lifecycle::Mapped));
}
