//! The facade: builds the transport once from an access token, then wires
//! each resource service to that one transport by sharing, never by building
//! a second one.

use vstd::prelude::*;
use crate::client::Transport;
use crate::error::Error;
use crate::users::UserService;
use crate::videos::VideoService;
use crate::service::Service;

verus! {

/// Holds every resource service, all sharing one transport.  Two states
/// only: not yet built, and ready; once `new` returns, nothing here changes.
pub struct VimeoServices {
    transport: Transport,
    users: UserService,
    videos: VideoService,
}

impl VimeoServices {
    pub closed spec fn transport_spec(&self) -> Transport {
        self.transport
    }

    pub closed spec fn users_spec(&self) -> UserService {
        self.users
    }

    pub closed spec fn videos_spec(&self) -> VideoService {
        self.videos
    }

    /// One transport, shared: each service's handle is that same transport,
    /// so no header configuration is done twice, and no service can observe
    /// state another mutated — there is none to mutate.
    pub open spec fn wf(&self) -> bool {
        &&& self.users_spec().transport_spec() == self.transport_spec()
        &&& self.videos_spec().transport_spec() == self.transport_spec()
    }

    /// Builds the transport once from the access token, then wires the
    /// services by sharing it.  The token is refused exactly when one of its
    /// characters cannot stand in a header.
    pub fn new(access_token: &str) -> (r: Result<VimeoServices, Error>)
        ensures
            !crate::client::valid_header_value(access_token@) <==> r == Err::<
                VimeoServices,
                Error,
            >(Error::InvalidAccessToken),
            r matches Err(e) ==> e == Error::InvalidAccessToken || e == Error::ClientBuild,
            r matches Ok(f) ==> f.wf() && f.transport_spec().configured_for(access_token@),
    {
        let transport = match Transport::new(access_token) {
            Ok(t) => t,
            Err(e) => {
                return Err(e);
            },
        };
        let users = UserService::new(transport.share());
        let videos = VideoService::new(transport.share());
        Ok(VimeoServices { transport, users, videos })
    }

    /// The user service, borrowed for this facade's lifetime.
    pub fn users(&self) -> (r: &UserService)
        ensures
            *r == self.users_spec(),
    {
        &self.users
    }

    /// The video service, borrowed for this facade's lifetime.
    pub fn videos(&self) -> (r: &VideoService)
        ensures
            *r == self.videos_spec(),
    {
        &self.videos
    }
}

} // verus!
