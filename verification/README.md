# trouble_btp

A Matter BTP GATT peripheral for the `trouble-host` BLE stack, with its decisions verified by Verus.

`src/` decides, and Verus proves what it decides:

- `address`: the static random address of the device, made of a random number
- `advertising`: what the device advertises
- `events`: what is done for each event of a connection
- `indications`: when which frame of the BTP engine is indicated
- `connection`: how the events and the indications of one connection meet
- `peripheral`: how one connection follows another
- `session`: how a service and its connections meet
- `host`: the two peripherals, one with a BLE host of its own that it runs beside the service, one on
  a host of the caller
- `context`: the buffer that frames are assembled in, which never outgrows its size
- `error`: what ends the service

Each part is a step function from a state and an input to the next state and an action. The
contract of a step function equates it with a transition function, and the functions named `law_*`
prove what holds of whole runs.

`app/` performs the actions: it drives `trouble-host` and the BTP engine of `rs-matter` and hands
back what came of each action.
