//! The open tunnels by their handles.

use std::collections::HashMap;

use vstd::prelude::*;

use crate::error::TunnelError;

verus! {

broadcast use vstd::std_specs::hash::group_hash_axioms;

/// The largest handle.
pub const MAX_HANDLE: u64 = 0x7fff_ffff;

/// The tunnels that are open, and the handle that the next one gets.
pub struct TunnelRegistry<T> {
    next_handle: u64,
    runtimes: HashMap<u64, T>,
}

/// The contents of a [`TunnelRegistry`].
pub ghost struct RegistryView<T> {
    pub next_handle: u64,
    pub runtimes: Map<u64, T>,
}

impl<T> View for TunnelRegistry<T> {
    type V = RegistryView<T>;

    closed spec fn view(&self) -> RegistryView<T> {
        RegistryView { next_handle: self.next_handle, runtimes: self.runtimes@ }
    }
}

/// The key that a handle stands for: the handle itself, where it is positive.
pub open spec fn key_of_handle(handle: i32) -> Result<u64, TunnelError> {
    if handle <= 0 {
        Err(TunnelError::InvalidHandle)
    } else {
        Ok(handle as u64)
    }
}

impl<T> RegistryView<T> {
    /// Every tunnel got its handle before the next one is given out.
    pub open spec fn wf(self) -> bool {
        forall|key: u64| #[trigger]
            self.runtimes.contains_key(key) ==> 0 < key < self.next_handle && key <= MAX_HANDLE
    }

    /// The handle counter after one more handle.
    pub open spec fn advanced(self) -> u64 {
        if self.next_handle == u64::MAX {
            0
        } else {
            (self.next_handle + 1) as u64
        }
    }

    /// The registry after a tunnel was entered.
    pub open spec fn entered(self, runtime: T) -> RegistryView<T> {
        RegistryView {
            next_handle: self.advanced(),
            runtimes: if self.next_handle > MAX_HANDLE {
                self.runtimes
            } else {
                self.runtimes.insert(self.next_handle, runtime)
            },
        }
    }

    /// The handle that a tunnel gets when it is entered.
    pub open spec fn handle(self) -> Result<i32, TunnelError> {
        if self.next_handle > MAX_HANDLE {
            Err(TunnelError::HandlesExhausted)
        } else {
            Ok(self.next_handle as i32)
        }
    }

    /// The tunnel with a handle.
    pub open spec fn runtime(self, handle: i32) -> Result<T, TunnelError> {
        match key_of_handle(handle) {
            Ok(key) => if self.runtimes.contains_key(key) {
                Ok(self.runtimes[key])
            } else {
                Err(TunnelError::UnknownHandle)
            },
            Err(error) => Err(error),
        }
    }

    /// The registry without the tunnel of a handle.
    pub open spec fn without(self, handle: i32) -> RegistryView<T> {
        match key_of_handle(handle) {
            Ok(key) => RegistryView { runtimes: self.runtimes.remove(key), ..self },
            Err(error) => self,
        }
    }
}

/// Checks a handle.
pub fn handle_key(handle: i32) -> (key: Result<u64, TunnelError>)
    ensures
        key == key_of_handle(handle),
{
    if handle <= 0 {
        return Err(TunnelError::InvalidHandle);
    }
    Ok(handle as u64)
}

impl<T> TunnelRegistry<T> {
    /// A registry without tunnels.
    pub fn new() -> (registry: TunnelRegistry<T>)
        ensures
            registry@.wf(),
            registry@ == (RegistryView::<T> { next_handle: 1, runtimes: Map::empty() }),
    {
        TunnelRegistry { next_handle: 1, runtimes: HashMap::new() }
    }

    /// Enters a tunnel under the next handle. The handle is used up even where it is out of range
    /// and the tunnel is not entered.
    pub fn enter(&mut self, runtime: T) -> (handle: Result<i32, TunnelError>)
        ensures
            final(self)@ == old(self)@.entered(runtime),
            handle == old(self)@.handle(),
    {
        let handle: u64 = self.next_handle;
        self.next_handle = handle.wrapping_add(1);
        if handle > MAX_HANDLE {
            return Err(TunnelError::HandlesExhausted);
        }
        let _replaced = self.runtimes.insert(handle, runtime);
        Ok(handle as i32)
    }

    /// Looks up the tunnel of a handle.
    pub fn get_runtime(&self, handle: i32) -> (runtime: Result<&T, TunnelError>)
        ensures
            match runtime {
                Ok(runtime) => self@.runtime(handle) == Ok::<T, TunnelError>(*runtime),
                Err(error) => self@.runtime(handle) == Err::<T, TunnelError>(error),
            },
    {
        let key: u64 = handle_key(handle)?;
        match self.runtimes.get(&key) {
            Some(runtime) => Ok(runtime),
            None => Err(TunnelError::UnknownHandle),
        }
    }
}

/// Takes the tunnel of a handle out of the registry, for it to be stopped. There is nothing to stop
/// under a handle without a tunnel.
pub fn stop_tunnel<T>(registry: &mut TunnelRegistry<T>, handle: i32) -> (runtime: Result<
    Option<T>,
    TunnelError,
>)
    ensures
        final(registry)@ == old(registry)@.without(handle),
        runtime == match old(registry)@.runtime(handle) {
            Ok(runtime) => Ok::<Option<T>, TunnelError>(Some(runtime)),
            Err(TunnelError::UnknownHandle) => Ok(None),
            Err(error) => Err(error),
        },
{
    let key: u64 = handle_key(handle)?;
    Ok(registry.runtimes.remove(&key))
}

/// Entering tunnels and taking them out keeps the registry well-formed, as long as the counter of
/// handles has not run full.
pub proof fn law_registry_stays_well_formed<T>(registry: RegistryView<T>, runtime: T, handle: i32)
    requires
        registry.wf(),
    ensures
        0 < registry.next_handle < u64::MAX ==> registry.entered(runtime).wf(),
        registry.without(handle).wf(),
{
}

/// A tunnel that was entered is found under the handle that it got, no other tunnel had that
/// handle, and every other handle means what it meant before.
pub proof fn law_entered_tunnel_is_found<T>(registry: RegistryView<T>, runtime: T, other: i32)
    requires
        registry.wf(),
        0 < registry.next_handle,
    ensures
        registry.handle() matches Ok(handle) ==> {
            &&& 0 < handle
            &&& registry.runtime(handle) == Err::<T, TunnelError>(TunnelError::UnknownHandle)
            &&& registry.entered(runtime).runtime(handle) == Ok::<T, TunnelError>(runtime)
            &&& other != handle ==> registry.entered(runtime).runtime(other) == registry.runtime(
                other,
            )
        },
        registry.handle() is Err ==> registry.entered(runtime).runtime(other) == registry.runtime(
            other,
        ),
{
}

/// A tunnel that was taken out is unknown, and every other handle means what it meant before.
pub proof fn law_stopped_tunnel_is_unknown<T>(registry: RegistryView<T>, handle: i32, other: i32)
    requires
        0 < handle,
    ensures
        registry.without(handle).runtime(handle) == Err::<T, TunnelError>(
            TunnelError::UnknownHandle,
        ),
        other != handle ==> registry.without(handle).runtime(other) == registry.runtime(other),
{
}

/// A handle is not given out a second time: the next tunnel that gets one gets a larger one.
pub proof fn law_handles_are_not_reused<T>(registry: RegistryView<T>, first: T, second: T)
    requires
        registry.handle() is Ok,
        registry.entered(first).handle() is Ok,
    ensures
        registry.entered(first).handle()->Ok_0 > registry.handle()->Ok_0,
{
}

/// Handles count up from the next one, as long as they fit into 31 bits, and a handle is the key
/// under which its tunnel is kept. No handle is zero or negative.
pub proof fn law_handles_count_up<T>(registry: RegistryView<T>, runtime: T, handle: i32)
    ensures
        registry.next_handle <= 0x7fff_ffff ==> (registry.handle() matches Ok(given) && given
            == registry.next_handle) && registry.entered(runtime).runtimes
            == registry.runtimes.insert(registry.next_handle, runtime),
        registry.next_handle > 0x7fff_ffff ==> registry.handle() == Err::<i32, TunnelError>(
            TunnelError::HandlesExhausted,
        ) && registry.entered(runtime).runtimes == registry.runtimes,
        registry.next_handle < u64::MAX ==> registry.entered(runtime).next_handle
            == registry.next_handle + 1,
        handle > 0 ==> key_of_handle(handle) == Ok::<u64, TunnelError>(handle as u64),
        handle <= 0 ==> key_of_handle(handle) == Err::<u64, TunnelError>(
            TunnelError::InvalidHandle,
        ) && registry.runtime(handle) == Err::<T, TunnelError>(TunnelError::InvalidHandle)
            && registry.without(handle) == registry,
        handle > 0 && registry.runtimes.contains_key(handle as u64) ==> registry.runtime(handle)
            == Ok::<T, TunnelError>(registry.runtimes[handle as u64]),
        handle > 0 && !registry.runtimes.contains_key(handle as u64) ==> registry.runtime(handle)
            == Err::<T, TunnelError>(TunnelError::UnknownHandle),
        handle > 0 ==> registry.without(handle).runtimes == registry.runtimes.remove(handle as u64)
            && registry.without(handle).next_handle == registry.next_handle,
{
}

} // verus!
