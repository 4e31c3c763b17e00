//! Message bus types: the messages exchanged between chat channels and the agent.

pub mod events;
